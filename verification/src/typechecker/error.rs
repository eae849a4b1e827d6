//! The errors the type checker reports.
use vstd::prelude::*;
use vstd::string::StringExecFns;

use crate::lexer::Span;
use crate::parser::ast::TypeName;
use crate::typechecker::describe::{describe_type_name, type_name_text, type_text};
use crate::typechecker::types::Type;

verus! {

/// An error found while type checking, with where it was found.
#[derive(Clone, Debug, PartialEq, Eq)]
pub enum TypeCheckError {
    TypeMismatch(TypeMismatch, Span),
    UndefinedVariable(UndefinedVariable, Span),
    UndefinedType(UndefinedType, Span),
    MissingInitialisationType(MissingInitialisationType, Span),
    InvalidConstantType(InvalidConstantType, Span),
    RedefinedConstant(RedefinedConstant, Span),
    RedefinedFunction(RedefinedFunction, Span),
    RedefinedMethod(RedefinedMethod, Span),
    ImmutableReassign(ImmutableReassign, Span),
    MissingMainFunction(MissingMainFunction),
    InvalidMainSignature(InvalidMainSignature, Span),
    UnsupportedBinaryOperation(UnsupportedBinaryOperation, Span),
}

/// A value has another type than the one expected.
#[derive(Clone, Debug, PartialEq, Eq)]
pub struct TypeMismatch {
    pub expected: Type,
    pub actual: Type,
}

/// A name is used that no variable or constant has.
#[derive(Clone, Debug, PartialEq, Eq)]
pub struct UndefinedVariable {
    pub variable_name: String,
}

/// A type name is used that names no type.
#[derive(Clone, Debug, PartialEq, Eq)]
pub struct UndefinedType {
    pub type_annotation: TypeName,
}

/// A variable is initialised with a value whose type is not known.
#[derive(Clone, Debug, PartialEq, Eq)]
pub struct MissingInitialisationType;

/// A constant is annotated with a type that does not resolve.
#[derive(Clone, Debug, PartialEq, Eq)]
pub struct InvalidConstantType {
    pub constant_name: String,
}

/// A constant (or a variable) is defined with a name that is taken.
#[derive(Clone, Debug, PartialEq, Eq)]
pub struct RedefinedConstant {
    pub constant_name: String,
}

/// A function is defined with a name that is taken.
#[derive(Clone, Debug, PartialEq, Eq)]
pub struct RedefinedFunction {
    pub function_name: String,
}

/// A method is defined twice for a type.
#[derive(Clone, Debug, PartialEq, Eq)]
pub struct RedefinedMethod {
    pub type_id: Type,
    pub function_name: String,
}

/// An immutable variable is assigned to.
#[derive(Clone, Debug, PartialEq, Eq)]
pub struct ImmutableReassign {
    pub variable_name: String,
}

/// The program has no `main` function.
#[derive(Clone, Debug, PartialEq, Eq)]
pub struct MissingMainFunction;

/// The `main` function has a signature that is not allowed.
#[derive(Clone, Debug, PartialEq, Eq)]
pub struct InvalidMainSignature;

/// A binary operation is applied to types it does not support.
#[derive(Debug, PartialEq, Eq)]
pub struct UnsupportedBinaryOperation {
    pub operands: (Type, Type),
}

impl Clone for UnsupportedBinaryOperation {
    fn clone(&self) -> (r: Self)
        ensures
            r.operands.0@ == self.operands.0@,
            r.operands.1@ == self.operands.1@,
    {
        UnsupportedBinaryOperation { operands: (self.operands.0.clone(), self.operands.1.clone()) }
    }
}

/// The message that describes an error.
pub open spec fn error_message(e: TypeCheckError) -> Seq<char> {
    match e {
        TypeCheckError::TypeMismatch(m, _) => "Expected type '"@ + type_text(m.expected@)
            + "' but got '"@ + type_text(m.actual@) + "'"@,
        TypeCheckError::UndefinedVariable(u, _) => "Tried to access undefined variable "@
            + u.variable_name@,
        TypeCheckError::UndefinedType(u, _) => "Undefined type "@ + type_name_text(
            u.type_annotation@,
        ),
        TypeCheckError::MissingInitialisationType(_, _) => "There must be a type known at compile time!"@,
        TypeCheckError::InvalidConstantType(c, _) => "Constant '"@ + c.constant_name@
            + "' needs to have a valid annotated type"@,
        TypeCheckError::RedefinedConstant(c, _) => "Constant '"@ + c.constant_name@
            + "' is already defined"@,
        TypeCheckError::RedefinedFunction(f, _) => "Function '"@ + f.function_name@
            + "' is already defined"@,
        TypeCheckError::RedefinedMethod(m, _) => "Method '"@ + m.function_name@
            + "' is already defined for type '"@ + type_text(m.type_id@) + "'"@,
        TypeCheckError::ImmutableReassign(i, _) => "Can not reassign immutable variable '"@
            + i.variable_name@ + "'"@,
        TypeCheckError::MissingMainFunction(_) => "Missing main function!"@,
        TypeCheckError::InvalidMainSignature(_, _) => "The main function does not have a valid signature. It must not accept any arguments and must return either void or an integer!"@,
        TypeCheckError::UnsupportedBinaryOperation(u, _) => "This binary operation is not supported for types '"@
            + type_text(u.operands.0@) + "' and '"@ + type_text(u.operands.1@) + "'"@,
    }
}

/// Where an error was found; a missing `main` function has the empty span.
pub open spec fn error_span(e: TypeCheckError) -> Span {
    match e {
        TypeCheckError::TypeMismatch(_, span) => span,
        TypeCheckError::UndefinedVariable(_, span) => span,
        TypeCheckError::UndefinedType(_, span) => span,
        TypeCheckError::MissingInitialisationType(_, span) => span,
        TypeCheckError::InvalidConstantType(_, span) => span,
        TypeCheckError::RedefinedConstant(_, span) => span,
        TypeCheckError::RedefinedFunction(_, span) => span,
        TypeCheckError::RedefinedMethod(_, span) => span,
        TypeCheckError::ImmutableReassign(_, span) => span,
        TypeCheckError::MissingMainFunction(_) => Span { start: 0, end: 0 },
        TypeCheckError::InvalidMainSignature(_, span) => span,
        TypeCheckError::UnsupportedBinaryOperation(_, span) => span,
    }
}

impl TypeCheckError {
    /// Where the error was found.
    pub fn span(&self) -> (s: Span)
        ensures
            s == error_span(*self),
    {
        match self {
            TypeCheckError::TypeMismatch(_, span) => *span,
            TypeCheckError::UndefinedVariable(_, span) => *span,
            TypeCheckError::UndefinedType(_, span) => *span,
            TypeCheckError::MissingInitialisationType(_, span) => *span,
            TypeCheckError::InvalidConstantType(_, span) => *span,
            TypeCheckError::RedefinedConstant(_, span) => *span,
            TypeCheckError::RedefinedFunction(_, span) => *span,
            TypeCheckError::RedefinedMethod(_, span) => *span,
            TypeCheckError::ImmutableReassign(_, span) => *span,
            TypeCheckError::MissingMainFunction(_) => Span::default(),
            TypeCheckError::InvalidMainSignature(_, span) => *span,
            TypeCheckError::UnsupportedBinaryOperation(_, span) => *span,
        }
    }

    /// The message that describes the error.
    pub fn err(&self) -> (m: String)
        ensures
            m@ == error_message(*self),
    {
        match self {
            TypeCheckError::TypeMismatch(e, _) => {
                let mut m = String::from_str("Expected type '");
                let expected = e.expected.describe();
                m.append(expected.as_str());
                m.append("' but got '");
                let actual = e.actual.describe();
                m.append(actual.as_str());
                m.append("'");
                m
            },
            TypeCheckError::UndefinedVariable(e, _) => {
                let mut m = String::from_str("Tried to access undefined variable ");
                m.append(e.variable_name.as_str());
                m
            },
            TypeCheckError::UndefinedType(e, _) => {
                let mut m = String::from_str("Undefined type ");
                let name = describe_type_name(&e.type_annotation);
                m.append(name.as_str());
                m
            },
            TypeCheckError::MissingInitialisationType(_, _) => String::from_str(
                "There must be a type known at compile time!",
            ),
            TypeCheckError::InvalidConstantType(e, _) => {
                let mut m = String::from_str("Constant '");
                m.append(e.constant_name.as_str());
                m.append("' needs to have a valid annotated type");
                m
            },
            TypeCheckError::RedefinedConstant(e, _) => {
                let mut m = String::from_str("Constant '");
                m.append(e.constant_name.as_str());
                m.append("' is already defined");
                m
            },
            TypeCheckError::RedefinedFunction(e, _) => {
                let mut m = String::from_str("Function '");
                m.append(e.function_name.as_str());
                m.append("' is already defined");
                m
            },
            TypeCheckError::RedefinedMethod(e, _) => {
                let mut m = String::from_str("Method '");
                m.append(e.function_name.as_str());
                m.append("' is already defined for type '");
                let t = e.type_id.describe();
                m.append(t.as_str());
                m.append("'");
                m
            },
            TypeCheckError::ImmutableReassign(e, _) => {
                let mut m = String::from_str("Can not reassign immutable variable '");
                m.append(e.variable_name.as_str());
                m.append("'");
                m
            },
            TypeCheckError::MissingMainFunction(_) => String::from_str("Missing main function!"),
            TypeCheckError::InvalidMainSignature(_, _) => String::from_str(
                "The main function does not have a valid signature. It must not accept any arguments and must return either void or an integer!",
            ),
            TypeCheckError::UnsupportedBinaryOperation(e, _) => {
                let mut m = String::from_str(
                    "This binary operation is not supported for types '",
                );
                let left = e.operands.0.describe();
                m.append(left.as_str());
                m.append("' and '");
                let right = e.operands.1.describe();
                m.append(right.as_str());
                m.append("'");
                m
            },
        }
    }
}

} // verus!
