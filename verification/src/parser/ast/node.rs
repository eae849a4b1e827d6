//! A node of any kind, as produced by the parser combinators.
use vstd::prelude::*;

use crate::parser::ast::{
    Array, Assignment, AstString, Block, Character, Constant, Declaration, Expression, Function,
    FunctionParameter, Id, If, Initialisation, Instance, Lambda, LambdaParameter,
    MethodDeclaration, Num, Statement, StructDeclaration, StructFieldDeclaration,
    StructFieldInitialisation, StructInitialisation, TypeName, WhileLoop,
};

verus! {

/// A parsed node of any kind.
#[derive(Debug, PartialEq, Eq)]
pub enum AstNode {
    Expression(Expression<()>),
    Id(Id<()>),
    Num(Num<()>),
    Character(Character<()>),
    AstString(AstString<()>),
    Statement(Statement<()>),
    Initialization(Initialisation<()>),
    Constant(Constant<()>),
    Assignment(Assignment<()>),
    Function(Function<()>),
    Lambda(Lambda<()>),
    LambdaParameter(LambdaParameter<()>),
    If(If<()>),
    WhileLoop(WhileLoop<()>),
    FunctionParameter(FunctionParameter<()>),
    TypeName(TypeName),
    Block(Block<()>),
    Array(Array<()>),
    Declaration(Declaration<()>),
    StructDeclaration(StructDeclaration<()>),
    StructFieldDeclaration(StructFieldDeclaration<()>),
    StructInitialisation(StructInitialisation<()>),
    StructFieldInitialisation(StructFieldInitialisation<()>),
    Instance(Instance<()>),
    MethodDeclaration(MethodDeclaration<()>),
}

} // verus!
