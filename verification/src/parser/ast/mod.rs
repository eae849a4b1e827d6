//! The abstract syntax tree of the Y language.
mod expression;
mod node;
mod statement;
mod typename;

pub use self::expression::{
    binary_size, law_balance_keeps_lexemes, operator_precedence, same_skeleton, spec_balance, Array, AstString, BinaryExpression, BinaryOperator, Block, Bool, Character, Expression,
    Function, FunctionParameter, Id, If, Lambda, LambdaParameter, Num, Postfix, Prefix,
    StructFieldInitialisation, StructInitialisation,
};
pub use self::node::AstNode;
pub use self::statement::{
    accessed_variable, accesses_variable, lvalue_names_variable, lvalue_variable, Assignment, Constant, Declaration, Initialisation, Instance, LValue, MethodDeclaration,
    Statement, StructDeclaration, StructFieldDeclaration, TopLevelStatement, WhileLoop,
};
pub use self::typename::{clone_type_names, view_names, TypeName, TypeNameView};
