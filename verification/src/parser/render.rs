//! How each node of the syntax tree is spelled as a sequence of lexemes.
//!
//! These functions give the canonical spelling of a parsed tree; the parser's contracts
//! say that the tokens it consumed spell exactly the tree it returned.
use vstd::prelude::*;

use crate::lexer::{Lexeme, Terminal, Token};
use crate::parser::ast::{
    AstNode,
    Array, Assignment, BinaryExpression, BinaryOperator, Block, Constant, Declaration, Expression,
    Function, FunctionParameter, Id, If, Initialisation, Instance, LValue, Lambda,
    LambdaParameter, MethodDeclaration, Num, Postfix, Prefix, Statement, StructDeclaration,
    StructFieldDeclaration, StructFieldInitialisation, StructInitialisation, TopLevelStatement,
    TypeName, WhileLoop,
};

verus! {

/// The lexemes of `tokens[a..b]`.
pub open spec fn lexemes(tokens: Seq<Token>, a: int, b: int) -> Seq<Lexeme> {
    tokens.subrange(a, b).map_values(|t: Token| t.lexeme())
}

/// A single terminal.
pub open spec fn term(t: Terminal) -> Seq<Lexeme> {
    seq![Lexeme::Term(t)]
}

pub open spec fn render_id(id: Id<()>) -> Seq<Lexeme> {
    seq![Lexeme::Id(id.name@)]
}

/// A list of type names separated by commas.
pub open spec fn render_type_names(names: Seq<TypeName>) -> Seq<Lexeme>
    decreases names,
{
    if names.len() == 0 {
        Seq::empty()
    } else if names.len() == 1 {
        render_type_name(names[0])
    } else {
        render_type_names(names.drop_last()) + term(Terminal::Comma) + render_type_name(
            names.last(),
        )
    }
}

pub open spec fn render_type_name(t: TypeName) -> Seq<Lexeme>
    decreases t,
{
    match t {
        TypeName::Literal(name, _) => seq![Lexeme::Id(name@)],
        TypeName::Fn { params, return_type, .. } => term(Terminal::LParen) + render_type_names(
            params@,
        ) + term(Terminal::RParen) + term(Terminal::SmallRightArrow) + render_type_name(
            *return_type,
        ),
        TypeName::Tuple(elements, _) => term(Terminal::LParen) + render_type_names(elements@) + term(
            Terminal::RParen,
        ),
        TypeName::Array(inner, _) => term(Terminal::Ampersand) + term(Terminal::LBracket)
            + render_type_name(*inner) + term(Terminal::RBracket),
        TypeName::Reference(inner, _) => term(Terminal::Ampersand) + render_type_name(*inner),
    }
}

pub open spec fn operator_terminal(op: BinaryOperator) -> Terminal {
    match op {
        BinaryOperator::Add => Terminal::Plus,
        BinaryOperator::Substract => Terminal::Minus,
        BinaryOperator::Multiply => Terminal::Times,
        BinaryOperator::Divide => Terminal::Slash,
        BinaryOperator::Equals => Terminal::Equal,
        BinaryOperator::GreaterThan => Terminal::GreaterThan,
        BinaryOperator::LessThan => Terminal::LessThan,
        BinaryOperator::GreaterOrEqual => Terminal::GreaterOrEqual,
        BinaryOperator::LessOrEqual => Terminal::LessOrEqual,
    }
}

/// A list of expressions separated by commas.
pub open spec fn render_expressions(es: Seq<Expression<()>>) -> Seq<Lexeme>
    decreases es,
{
    if es.len() == 0 {
        Seq::empty()
    } else if es.len() == 1 {
        render_expression(es[0])
    } else {
        render_expressions(es.drop_last()) + term(Terminal::Comma) + render_expression(es.last())
    }
}

pub open spec fn render_parameters(ps: Seq<FunctionParameter<()>>) -> Seq<Lexeme>
    decreases ps,
{
    if ps.len() == 0 {
        Seq::empty()
    } else if ps.len() == 1 {
        render_parameter(ps[0])
    } else {
        render_parameters(ps.drop_last()) + term(Terminal::Comma) + render_parameter(ps.last())
    }
}

pub open spec fn render_parameter(p: FunctionParameter<()>) -> Seq<Lexeme> {
    render_id(p.name) + term(Terminal::Colon) + render_type_name(p.type_annotation)
}

pub open spec fn render_lambda_parameters(ps: Seq<LambdaParameter<()>>) -> Seq<Lexeme>
    decreases ps,
{
    if ps.len() == 0 {
        Seq::empty()
    } else if ps.len() == 1 {
        render_id(ps[0].name)
    } else {
        render_lambda_parameters(ps.drop_last()) + term(Terminal::Comma) + render_id(
            ps.last().name,
        )
    }
}

pub open spec fn render_field_initialisations(fs: Seq<StructFieldInitialisation<()>>) -> Seq<
    Lexeme,
>
    decreases fs,
{
    if fs.len() == 0 {
        Seq::empty()
    } else if fs.len() == 1 {
        render_id(fs[0].name) + term(Terminal::Colon) + render_expression(fs[0].value)
    } else {
        render_field_initialisations(fs.drop_last()) + term(Terminal::Comma) + render_id(
            fs.last().name,
        ) + term(Terminal::Colon) + render_expression(fs.last().value)
    }
}

pub open spec fn render_function(f: Function<()>) -> Seq<Lexeme>
    decreases f,
{
    term(Terminal::FnKeyword) + render_id(f.id) + term(Terminal::LParen) + render_parameters(
        f.parameters@,
    ) + term(Terminal::RParen) + term(Terminal::Colon) + render_type_name(f.return_type)
        + render_block(f.body)
}

pub open spec fn render_block(b: Block<()>) -> Seq<Lexeme>
    decreases b,
{
    term(Terminal::LBrace) + render_statements(b.statements@) + term(Terminal::RBrace)
}

/// An `if` without `else` is parsed with an empty `else` block at the position of the
/// whole `if`; that block is not spelled.
pub open spec fn render_if(i: If<()>) -> Seq<Lexeme>
    decreases i,
{
    term(Terminal::IfKeyword) + term(Terminal::LParen) + render_expression(*i.condition) + term(
        Terminal::RParen,
    ) + render_block(i.then_block) + if i.else_block.statements.len() == 0
        && i.else_block.position == i.position {
        Seq::empty()
    } else {
        term(Terminal::ElseKeyword) + render_block(i.else_block)
    }
}

pub open spec fn render_postfix(p: Postfix<()>) -> Seq<Lexeme>
    decreases p,
{
    match p {
        Postfix::Call { expr, args, .. } => render_expression(*expr) + term(Terminal::LParen)
            + render_expressions(args@) + term(Terminal::RParen),
        Postfix::Index { expr, index, .. } => render_expression(*expr) + term(Terminal::LBracket)
            + render_expression(*index) + term(Terminal::RBracket),
        Postfix::PropertyAccess { expr, property, .. } => render_expression(*expr) + term(
            Terminal::Dot,
        ) + render_id(property),
    }
}

pub open spec fn render_expression(e: Expression<()>) -> Seq<Lexeme>
    decreases e,
{
    match e {
        Expression::Id(id) => render_id(id),
        Expression::Num(Num::Integer(v, _, _)) => seq![Lexeme::Int(v)],
        Expression::Num(Num::FloatingPoint(digits, _, _)) => seq![Lexeme::Float(digits@)],
        Expression::Bool(b) => if b.value {
            term(Terminal::TrueKeyword)
        } else {
            term(Terminal::FalseKeyword)
        },
        Expression::Character(c) => seq![Lexeme::Chr(c.character)],
        Expression::AstString(s) => seq![Lexeme::Str(s.value@)],
        Expression::Function(f) => render_function(f),
        Expression::Lambda(l) => term(Terminal::Backslash) + term(Terminal::LParen)
            + render_lambda_parameters(l.parameters@) + term(Terminal::RParen) + term(
            Terminal::BigRightArrow,
        ) + render_expression(*l.expression),
        Expression::If(i) => render_if(i),
        Expression::Block(b) => render_block(b),
        Expression::Parens(inner) => term(Terminal::LParen) + render_expression(*inner) + term(
            Terminal::RParen,
        ),
        Expression::Postfix(p) => render_postfix(p),
        Expression::Prefix(Prefix::Negation { expr, .. }) => term(Terminal::ExclamationMark)
            + render_expression(*expr),
        Expression::Prefix(Prefix::Minus { expr, .. }) => term(Terminal::Minus) + render_expression(
            *expr,
        ),
        Expression::Binary(b) => render_expression(b.left) + term(operator_terminal(b.operator))
            + render_expression(b.right),
        Expression::Array(Array::Literal { values, .. }) => term(Terminal::Ampersand) + term(
            Terminal::LBracket,
        ) + render_expressions(values@) + term(Terminal::RBracket),
        Expression::Array(Array::Default { initial_value, length, .. }) => term(
            Terminal::Ampersand,
        ) + term(Terminal::LBracket) + render_expression(*initial_value) + term(
            Terminal::Semicolon,
        ) + match length {
            Num::Integer(v, _, _) => seq![Lexeme::Int(v)],
            Num::FloatingPoint(digits, _, _) => seq![Lexeme::Float(digits@)],
        } + term(Terminal::RBracket),
        Expression::StructInitialisation(s) => render_id(s.id) + term(Terminal::LBrace)
            + render_field_initialisations(s.fields@) + term(Terminal::RBrace),
    }
}

pub open spec fn render_lvalue(l: LValue<()>) -> Seq<Lexeme>
    decreases l,
{
    match l {
        LValue::Id(id) => render_id(id),
        LValue::Postfix(p) => render_postfix(p),
    }
}

pub open spec fn render_field_declarations(fs: Seq<StructFieldDeclaration<()>>) -> Seq<Lexeme>
    decreases fs,
{
    if fs.len() == 0 {
        Seq::empty()
    } else {
        render_field_declarations(fs.drop_last()) + render_id(fs.last().name) + term(
            Terminal::Colon,
        ) + render_type_name(fs.last().type_annotation) + term(Terminal::Semicolon)
    }
}

pub open spec fn render_struct_declaration(s: StructDeclaration<()>) -> Seq<Lexeme> {
    term(Terminal::StructKeyword) + render_id(s.id) + term(Terminal::LBrace)
        + render_field_declarations(s.fields@) + term(Terminal::RBrace)
}

pub open spec fn render_declaration(d: Declaration<()>) -> Seq<Lexeme> {
    term(Terminal::DeclareKeyword) + render_id(d.name) + term(Terminal::Colon) + render_type_name(
        d.type_annotation,
    ) + term(Terminal::Semicolon)
}

pub open spec fn render_constant(c: Constant<()>) -> Seq<Lexeme>
    decreases c,
{
    term(Terminal::Const) + render_id(c.id) + term(Terminal::Colon) + render_type_name(
        c.type_annotation,
    ) + term(Terminal::Assign) + render_expression(c.value) + term(Terminal::Semicolon)
}

pub open spec fn render_statement(s: Statement<()>) -> Seq<Lexeme>
    decreases s,
{
    match s {
        Statement::Function(f) => render_function(f),
        Statement::WhileLoop(w) => term(Terminal::WhileKeyword) + term(Terminal::LParen)
            + render_expression(w.condition) + term(Terminal::RParen) + render_block(w.block),
        Statement::Initialization(i) => term(Terminal::Let) + if i.mutable {
            term(Terminal::Mut)
        } else {
            Seq::empty()
        } + render_id(i.id) + match i.type_annotation {
            Some(t) => term(Terminal::Colon) + render_type_name(t),
            None => Seq::empty(),
        } + term(Terminal::Assign) + render_expression(i.value) + term(Terminal::Semicolon),
        Statement::Constant(c) => render_constant(c),
        Statement::Assignment(a) => render_lvalue(a.lvalue) + term(Terminal::Assign)
            + render_expression(a.rvalue) + term(Terminal::Semicolon),
        Statement::Expression(e) => render_expression(e) + term(Terminal::Semicolon),
        Statement::YieldingExpression(e) => render_expression(e),
        Statement::Return(e) => term(Terminal::ReturnKeyword) + render_expression(e) + term(
            Terminal::Semicolon,
        ),
        Statement::Comment(c) => seq![Lexeme::Comment(c@)],
        Statement::Declaration(d) => render_declaration(d),
        Statement::StructDeclaration(s) => render_struct_declaration(s),
    }
}

pub open spec fn render_statements(ss: Seq<Statement<()>>) -> Seq<Lexeme>
    decreases ss,
{
    if ss.len() == 0 {
        Seq::empty()
    } else {
        render_statements(ss.drop_last()) + render_statement(ss.last())
    }
}

pub open spec fn render_method_declaration(m: MethodDeclaration<()>) -> Seq<Lexeme> {
    term(Terminal::DeclareKeyword) + render_id(m.id) + term(Terminal::LParen) + render_type_names(
        m.parameter_types@,
    ) + term(Terminal::RParen) + term(Terminal::Colon) + render_type_name(m.return_type) + term(
        Terminal::Semicolon,
    )
}

/// The members of an instance block in the order `order` gives (`true` for the next
/// function, `false` for the next method declaration).
pub open spec fn render_members(
    functions: Seq<Function<()>>,
    declarations: Seq<MethodDeclaration<()>>,
    order: Seq<bool>,
) -> Seq<Lexeme>
    decreases order.len(),
{
    if order.len() == 0 {
        Seq::empty()
    } else if order.last() {
        render_members(functions.drop_last(), declarations, order.drop_last()) + render_function(
            functions.last(),
        )
    } else {
        render_members(functions, declarations.drop_last(), order.drop_last())
            + render_method_declaration(declarations.last())
    }
}

pub open spec fn count_true(order: Seq<bool>) -> nat
    decreases order.len(),
{
    if order.len() == 0 {
        0
    } else {
        count_true(order.drop_last()) + if order.last() {
            1nat
        } else {
            0nat
        }
    }
}

/// An instance block is spelled with its functions and method declarations interleaved in
/// some order.
pub open spec fn spells_instance(i: Instance<()>, s: Seq<Lexeme>) -> bool {
    exists|order: Seq<bool>|
        {
            &&& count_true(order) == i.functions@.len()
            &&& order.len() == i.functions@.len() + i.declarations@.len()
            &&& s == term(Terminal::InstanceKeyword) + render_type_name(i.name) + term(
                Terminal::LBrace,
            ) + render_members(i.functions@, i.declarations@, order) + term(Terminal::RBrace)
        }
}

pub open spec fn spells_top_level(t: TopLevelStatement<()>, s: Seq<Lexeme>) -> bool {
    match t {
        TopLevelStatement::Comment(c) => s == seq![Lexeme::Comment(c@)],
        TopLevelStatement::Function(f) => s == render_function(f),
        TopLevelStatement::Constant(c) => s == render_constant(c),
        TopLevelStatement::Declaration(d) => s == render_declaration(d),
        TopLevelStatement::StructDeclaration(d) => s == render_struct_declaration(d),
        TopLevelStatement::Instance(i) => spells_instance(i, s),
    }
}

} // verus!

verus! {

pub open spec fn render_field_declaration(f: StructFieldDeclaration<()>) -> Seq<Lexeme> {
    render_id(f.name) + term(Terminal::Colon) + render_type_name(f.type_annotation) + term(
        Terminal::Semicolon,
    )
}

pub open spec fn render_field_initialisation(f: StructFieldInitialisation<()>) -> Seq<Lexeme> {
    render_id(f.name) + term(Terminal::Colon) + render_expression(f.value)
}

/// Whether `s` spells the node `n`.
pub open spec fn spells_node(n: AstNode, s: Seq<Lexeme>) -> bool {
    match n {
        AstNode::Expression(e) => s == render_expression(e),
        AstNode::Id(id) => s == render_id(id),
        AstNode::Num(num) => s == render_expression(Expression::Num(num)),
        AstNode::Character(c) => s == render_expression(Expression::Character(c)),
        AstNode::AstString(a) => s == render_expression(Expression::AstString(a)),
        AstNode::Statement(st) => s == render_statement(st),
        AstNode::Initialization(i) => s == render_statement(Statement::Initialization(i)),
        AstNode::Constant(c) => s == render_constant(c),
        AstNode::Assignment(a) => s == render_statement(Statement::Assignment(a)),
        AstNode::Function(f) => s == render_function(f),
        AstNode::Lambda(l) => s == render_expression(Expression::Lambda(l)),
        AstNode::LambdaParameter(p) => s == render_id(p.name),
        AstNode::If(i) => s == render_if(i),
        AstNode::WhileLoop(w) => s == render_statement(Statement::WhileLoop(w)),
        AstNode::FunctionParameter(p) => s == render_parameter(p),
        AstNode::TypeName(t) => s == render_type_name(t),
        AstNode::Block(b) => s == render_block(b),
        AstNode::Array(a) => s == render_expression(Expression::Array(a)),
        AstNode::Declaration(d) => s == render_declaration(d),
        AstNode::StructDeclaration(d) => s == render_struct_declaration(d),
        AstNode::StructFieldDeclaration(f) => s == render_field_declaration(f),
        AstNode::StructInitialisation(i) => s == render_expression(Expression::StructInitialisation(i)),
        AstNode::StructFieldInitialisation(f) => s == render_field_initialisation(f),
        AstNode::Instance(i) => spells_instance(i, s),
        AstNode::MethodDeclaration(m) => s == render_method_declaration(m),
    }
}

} // verus!
