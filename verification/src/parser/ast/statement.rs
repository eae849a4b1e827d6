//! Statements of the Y language.
use vstd::prelude::*;

use crate::lexer::Span;
use crate::parser::ast::{Block, Expression, Function, Id, Postfix, TypeName};

verus! {

/// A statement inside a block.
#[derive(Debug, PartialEq, Eq)]
pub enum Statement<T> {
    Function(Function<T>),
    WhileLoop(WhileLoop<T>),
    Initialization(Initialisation<T>),
    Constant(Constant<T>),
    Assignment(Assignment<T>),
    Expression(Expression<T>),
    YieldingExpression(Expression<T>),
    Return(Expression<T>),
    Comment(String),
    Declaration(Declaration<T>),
    StructDeclaration(StructDeclaration<T>),
}

/// Everything that is allowed at top level.
#[derive(Debug, PartialEq, Eq)]
pub enum TopLevelStatement<T> {
    Comment(String),
    Function(Function<T>),
    Constant(Constant<T>),
    Declaration(Declaration<T>),
    StructDeclaration(StructDeclaration<T>),
    Instance(Instance<T>),
}

/// An assignment `lvalue = rvalue;`.
#[derive(Debug, PartialEq, Eq)]
pub struct Assignment<T> {
    pub lvalue: LValue<T>,
    pub rvalue: Expression<T>,
    pub info: T,
    pub position: Span,
}

/// What can stand on the left of an assignment.
#[derive(Debug, PartialEq, Eq)]
pub enum LValue<T> {
    Id(Id<T>),
    Postfix(Postfix<T>),
}

/// A constant `const name: type = value;`.
#[derive(Debug, PartialEq, Eq)]
pub struct Constant<T> {
    pub id: Id<T>,
    pub type_annotation: TypeName,
    pub value: Expression<T>,
    pub info: T,
    pub position: Span,
}

/// A declaration `declare name: type;`.
#[derive(Debug, Clone, PartialEq, Eq)]
pub struct Declaration<T> {
    pub name: Id<T>,
    pub type_annotation: TypeName,
    pub info: T,
    pub position: Span,
}

/// A variable initialisation `let [mut] name [: type] = value;`.
#[derive(Debug, PartialEq, Eq)]
pub struct Initialisation<T> {
    pub id: Id<T>,
    pub mutable: bool,
    pub type_annotation: Option<TypeName>,
    pub value: Expression<T>,
    pub info: T,
    pub position: Span,
}

/// An instance block that adds methods to a type.
#[derive(Debug, PartialEq, Eq)]
pub struct Instance<T> {
    pub name: TypeName,
    pub functions: Vec<Function<T>>,
    pub declarations: Vec<MethodDeclaration<T>>,
    pub info: T,
    pub position: Span,
}

/// A method declared (not defined) in an instance block: `declare name(types): type;`.
#[derive(Debug, Clone, PartialEq, Eq)]
pub struct MethodDeclaration<T> {
    pub id: Id<T>,
    pub parameter_types: Vec<TypeName>,
    pub return_type: TypeName,
    pub info: T,
    pub position: Span,
}

/// A struct declaration.
#[derive(Debug, Clone, PartialEq, Eq)]
pub struct StructDeclaration<T> {
    pub id: Id<T>,
    pub fields: Vec<StructFieldDeclaration<T>>,
    pub info: T,
    pub position: Span,
}

/// One field of a struct declaration.
#[derive(Debug, Clone, PartialEq, Eq)]
pub struct StructFieldDeclaration<T> {
    pub name: Id<T>,
    pub type_annotation: TypeName,
    pub info: T,
    pub position: Span,
}

/// A `while` loop.
#[derive(Debug, PartialEq, Eq)]
pub struct WhileLoop<T> {
    pub condition: Expression<T>,
    pub block: Block<T>,
    pub info: T,
    pub position: Span,
}

impl<T: Clone> Statement<T> {
    /// The information attached to the statement; an expression statement carries that of
    /// its expression. A comment carries none.
    pub open spec fn spec_info(self) -> T {
        match self {
            Statement::Function(f) => f.info,
            Statement::WhileLoop(w) => w.info,
            Statement::Initialization(i) => i.info,
            Statement::Constant(c) => c.info,
            Statement::Assignment(a) => a.info,
            Statement::Expression(e) => e.spec_info(),
            Statement::YieldingExpression(e) => e.spec_info(),
            Statement::Return(e) => e.spec_info(),
            Statement::Comment(_) => arbitrary(),
            Statement::Declaration(d) => d.info,
            Statement::StructDeclaration(d) => d.info,
        }
    }

    /// Where the statement was written; a comment has the empty span.
    pub open spec fn spec_position(self) -> Span {
        match self {
            Statement::Function(f) => f.position,
            Statement::WhileLoop(w) => w.position,
            Statement::Initialization(i) => i.position,
            Statement::Constant(c) => c.position,
            Statement::Assignment(a) => a.position,
            Statement::Expression(e) => e.spec_position(),
            Statement::YieldingExpression(e) => e.spec_position(),
            Statement::Return(e) => e.spec_position(),
            Statement::Comment(_) => Span { start: 0, end: 0 },
            Statement::Declaration(d) => d.position,
            Statement::StructDeclaration(d) => d.position,
        }
    }

    /// The information attached to the statement.
    pub fn get_info(&self) -> (r: T)
        requires
            !(self is Comment),
        ensures
            cloned(self.spec_info(), r),
    {
        match self {
            Statement::Function(f) => f.info.clone(),
            Statement::WhileLoop(w) => w.info.clone(),
            Statement::Initialization(i) => i.info.clone(),
            Statement::Constant(c) => c.info.clone(),
            Statement::Assignment(a) => a.info.clone(),
            Statement::Expression(e) => e.get_info(),
            Statement::YieldingExpression(e) => e.get_info(),
            Statement::Return(e) => e.get_info(),
            Statement::Comment(_) => vstd::pervasive::unreached(),
            Statement::Declaration(d) => d.info.clone(),
            Statement::StructDeclaration(d) => d.info.clone(),
        }
    }

    /// Where the statement was written.
    pub fn position(&self) -> (p: Span)
        ensures
            p == self.spec_position(),
    {
        match self {
            Statement::Function(f) => f.position,
            Statement::WhileLoop(w) => w.position,
            Statement::Initialization(i) => i.position,
            Statement::Constant(c) => c.position,
            Statement::Assignment(a) => a.position,
            Statement::Expression(e) => e.position(),
            Statement::YieldingExpression(e) => e.position(),
            Statement::Return(e) => e.position(),
            Statement::Comment(_) => Span::default(),
            Statement::Declaration(d) => d.position,
            Statement::StructDeclaration(d) => d.position,
        }
    }
}

/// Whether a chain of index and property accesses ends in a plain identifier.
pub open spec fn accesses_variable<T>(p: Postfix<T>) -> bool
    decreases p,
{
    match p {
        Postfix::Call { .. } => false,
        Postfix::Index { expr, .. } | Postfix::PropertyAccess { expr, .. } => match *expr {
            Expression::Id(_) => true,
            Expression::Postfix(inner) => accesses_variable(inner),
            _ => false,
        },
    }
}

/// The identifier at the root of a chain of index and property accesses.
pub open spec fn accessed_variable<T>(p: Postfix<T>) -> Id<T>
    decreases p,
{
    match p {
        Postfix::Call { .. } => arbitrary(),
        Postfix::Index { expr, .. } | Postfix::PropertyAccess { expr, .. } => match *expr {
            Expression::Id(id) => id,
            Expression::Postfix(inner) => accessed_variable(inner),
            _ => arbitrary(),
        },
    }
}

/// Whether an assignment target names a variable, directly or through accesses.
pub open spec fn lvalue_names_variable<T>(l: LValue<T>) -> bool {
    match l {
        LValue::Id(_) => true,
        LValue::Postfix(p) => accesses_variable(p),
    }
}

/// The variable an assignment target names.
pub open spec fn lvalue_variable<T>(l: LValue<T>) -> Id<T> {
    match l {
        LValue::Id(id) => id,
        LValue::Postfix(p) => accessed_variable(p),
    }
}

impl<T: Clone> LValue<T> {
    /// Where the assignment target was written.
    pub fn position(&self) -> (p: Span)
        ensures
            p == match self {
                LValue::Id(id) => id.position,
                LValue::Postfix(postfix) => postfix.spec_position(),
            },
    {
        match self {
            LValue::Id(id) => id.position,
            LValue::Postfix(postfix) => postfix.position(),
        }
    }

    /// The information attached to the assignment target.
    pub fn get_info(&self) -> (r: T)
        ensures
            cloned(
                match self {
                    LValue::Id(id) => id.info,
                    LValue::Postfix(postfix) => postfix.spec_info(),
                },
                r,
            ),
    {
        match self {
            LValue::Id(id) => id.info.clone(),
            LValue::Postfix(postfix) => postfix.get_info(),
        }
    }

    /// The variable that is assigned to, directly or through index and property accesses.
    pub fn get_original_variable_name(&self) -> (id: Id<T>)
        requires
            lvalue_names_variable(*self),
        ensures
            id.name == lvalue_variable(*self).name,
            id.position == lvalue_variable(*self).position,
            cloned(lvalue_variable(*self).info, id.info),
    {
        match self {
            LValue::Id(id) => Id { name: id.name.clone(), info: id.info.clone(), position: id.position },
            LValue::Postfix(postfix) => Self::get_original_variable_name_from_postfix(postfix),
        }
    }

    /// The identifier at the root of a chain of index and property accesses.
    pub fn get_original_variable_name_from_postfix(postfix: &Postfix<T>) -> (id: Id<T>)
        requires
            accesses_variable(*postfix),
        ensures
            id.name == accessed_variable(*postfix).name,
            id.position == accessed_variable(*postfix).position,
            cloned(accessed_variable(*postfix).info, id.info),
        decreases postfix,
    {
        let expr = match postfix {
            Postfix::Index { expr, .. } => expr,
            Postfix::PropertyAccess { expr, .. } => expr,
            Postfix::Call { .. } => vstd::pervasive::unreached(),
        };
        match &**expr {
            Expression::Id(id) => Id { name: id.name.clone(), info: id.info.clone(), position: id.position },
            Expression::Postfix(inner) => Self::get_original_variable_name_from_postfix(inner),
            _ => vstd::pervasive::unreached(),
        }
    }
}

} // verus!
