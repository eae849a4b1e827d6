//! Recursive descent over expressions, statements and blocks.
use vstd::prelude::*;

use crate::lexer::{Lexeme, Span, Terminal, Token};
use crate::parser::ast::{
    Array, Assignment, AstString, BinaryExpression, BinaryOperator, Block, Bool, Character,
    Constant, Declaration, Expression, Function, FunctionParameter, Id, If, Initialisation,
    LValue, Lambda, LambdaParameter, Num, Postfix, Prefix, Statement, StructDeclaration,
    StructFieldDeclaration, StructFieldInitialisation, StructInitialisation, WhileLoop,
};
use crate::parser::ast::operator_precedence;
use crate::parser::descent::{
    parse_type_name, at_terminal, id_at, token_is, type_literal, consumed, end_of_previous, expect, lemma_lexemes_empty, lemma_lexemes_one,
    lemma_lexemes_split, ready, same_tokens, spelled, start_here, unexpected,
};
use crate::parser::render::{
    lexemes, operator_terminal, render_block, render_constant, render_declaration,
    render_field_declarations, render_function, render_lvalue, render_parameter,
    render_parameters, render_struct_declaration, render_expression, render_expressions,
    render_field_initialisations, render_id, render_if, render_lambda_parameters,
    render_postfix, render_statement, render_statements, term,
};
use crate::parser::{ParseError, ParseState};

verus! {

/// Whether the token at `j` is a binary operator.
pub open spec fn operator_token(toks: Seq<Token>, j: int) -> bool {
    &&& 0 <= j < toks.len()
    &&& toks[j].lexeme() matches Lexeme::Term(t)
    &&& t == Terminal::Plus || t == Terminal::Minus || t == Terminal::Times || t == Terminal::Slash
        || t == Terminal::Equal || t == Terminal::GreaterThan || t == Terminal::LessThan || t
        == Terminal::GreaterOrEqual || t == Terminal::LessOrEqual
}

/// Whether the token at `i` is an operand on its own: a literal, or an identifier that no
/// left brace follows.
pub open spec fn operand_token(toks: Seq<Token>, i: int) -> bool {
    &&& 0 <= i < toks.len()
    &&& toks[i] is Integer || toks[i] is FloatingPoint || toks[i] is Character || toks[i] is String
        || toks[i] is TrueKeyword || toks[i] is FalseKeyword || (toks[i] is Id && !token_is(
        toks,
        i + 1,
        Terminal::LBrace,
    ))
}

/// The expression that an operand token stands for.
pub open spec fn operand_expression(t: Token) -> Expression<()> {
    match t {
        Token::Id { value, position } => Expression::Id(Id { name: value, info: (), position }),
        Token::Integer { value, position } => Expression::Num(Num::Integer(value, (), position)),
        Token::FloatingPoint { value, position } => Expression::Num(
            Num::FloatingPoint(value, (), position),
        ),
        Token::Character { value, position } => Expression::Character(
            Character { character: value, position, info: () },
        ),
        Token::String { value, position } => Expression::AstString(
            AstString { value, info: (), position },
        ),
        Token::TrueKeyword { position } => Expression::Bool(Bool { value: true, position, info: () }),
        _ => Expression::Bool(Bool { value: false, position: t.spec_position(), info: () }),
    }
}

/// Whether the operand token at `i` is followed by no call, index or property access.
pub open spec fn bare_operand(toks: Seq<Token>, i: int) -> bool {
    &&& operand_token(toks, i)
    &&& !token_is(toks, i + 1, Terminal::LParen)
    &&& !token_is(toks, i + 1, Terminal::LBracket)
    &&& !token_is(toks, i + 1, Terminal::Dot)
}

/// Whether the token at `i` is a whole expression: a bare operand that no binary operator
/// follows.
pub open spec fn single_operand(toks: Seq<Token>, i: int) -> bool {
    bare_operand(toks, i) && !operator_token(toks, i + 1)
}

/// The identifier that an identifier token spells.
pub open spec fn id_of(t: Token) -> Id<()> {
    match t {
        Token::Id { value, position } => Id { name: value, info: (), position },
        _ => arbitrary(),
    }
}

/// The text of a comment token.
pub open spec fn comment_text(t: Token) -> String {
    match t {
        Token::Comment { value, .. } => value,
        _ => arbitrary(),
    }
}

/// `{ }` at `i`.
pub open spec fn empty_block_at(toks: Seq<Token>, i: int) -> bool {
    token_is(toks, i, Terminal::LBrace) && token_is(toks, i + 1, Terminal::RBrace)
}

/// `if (x) { }` at `i`, where `x` is a single operand and no `else` follows.
pub open spec fn plain_if_at(toks: Seq<Token>, i: int) -> bool {
    &&& token_is(toks, i, Terminal::IfKeyword)
    &&& token_is(toks, i + 1, Terminal::LParen)
    &&& single_operand(toks, i + 2)
    &&& token_is(toks, i + 3, Terminal::RParen)
    &&& empty_block_at(toks, i + 4)
    &&& !token_is(toks, i + 6, Terminal::ElseKeyword)
}

/// `while (x) { }` at `i`, where `x` is a single operand.
pub open spec fn plain_while_at(toks: Seq<Token>, i: int) -> bool {
    &&& token_is(toks, i, Terminal::WhileKeyword)
    &&& token_is(toks, i + 1, Terminal::LParen)
    &&& single_operand(toks, i + 2)
    &&& token_is(toks, i + 3, Terminal::RParen)
    &&& empty_block_at(toks, i + 4)
}

/// `\() => x` at `i`, where `x` is a single operand.
pub open spec fn plain_lambda_at(toks: Seq<Token>, i: int) -> bool {
    &&& token_is(toks, i, Terminal::Backslash)
    &&& token_is(toks, i + 1, Terminal::LParen)
    &&& token_is(toks, i + 2, Terminal::RParen)
    &&& token_is(toks, i + 3, Terminal::BigRightArrow)
    &&& single_operand(toks, i + 4)
}

/// `&[]` at `i`.
pub open spec fn empty_array_at(toks: Seq<Token>, i: int) -> bool {
    &&& token_is(toks, i, Terminal::Ampersand)
    &&& token_is(toks, i + 1, Terminal::LBracket)
    &&& token_is(toks, i + 2, Terminal::RBracket)
}

/// `fn name(): type { }` at `i`.
pub open spec fn empty_function_at(toks: Seq<Token>, i: int) -> bool {
    &&& token_is(toks, i, Terminal::FnKeyword)
    &&& id_at(toks, i + 1)
    &&& token_is(toks, i + 2, Terminal::LParen)
    &&& token_is(toks, i + 3, Terminal::RParen)
    &&& token_is(toks, i + 4, Terminal::Colon)
    &&& id_at(toks, i + 5)
    &&& empty_block_at(toks, i + 6)
}

/// `struct Name { }` at `i`.
pub open spec fn empty_struct_at(toks: Seq<Token>, i: int) -> bool {
    token_is(toks, i, Terminal::StructKeyword) && id_at(toks, i + 1) && empty_block_at(toks, i + 2)
}

/// `declare name: type;` at `i`, where the type is a single name.
pub open spec fn plain_declaration_at(toks: Seq<Token>, i: int) -> bool {
    &&& token_is(toks, i, Terminal::DeclareKeyword)
    &&& id_at(toks, i + 1)
    &&& token_is(toks, i + 2, Terminal::Colon)
    &&& id_at(toks, i + 3)
    &&& token_is(toks, i + 4, Terminal::Semicolon)
}

/// `const name: type = x;` at `i`, where the type is a single name and `x` a single operand.
pub open spec fn plain_constant_at(toks: Seq<Token>, i: int) -> bool {
    &&& token_is(toks, i, Terminal::Const)
    &&& id_at(toks, i + 1)
    &&& token_is(toks, i + 2, Terminal::Colon)
    &&& id_at(toks, i + 3)
    &&& token_is(toks, i + 4, Terminal::Assign)
    &&& single_operand(toks, i + 5)
    &&& token_is(toks, i + 6, Terminal::Semicolon)
}

/// `let name = x;` at `i`, where `x` is a single operand.
pub open spec fn plain_initialisation_at(toks: Seq<Token>, i: int) -> bool {
    &&& token_is(toks, i, Terminal::Let)
    &&& id_at(toks, i + 1)
    &&& token_is(toks, i + 2, Terminal::Assign)
    &&& single_operand(toks, i + 3)
    &&& token_is(toks, i + 4, Terminal::Semicolon)
}

/// Whether every binary operation in the expression, down through binary operations, binds at
/// least as tightly as `min`, its left operand at least as tightly as itself and its right
/// operand more tightly: the shape of a left associative parse by precedence.
pub open spec fn precedence_ordered(e: Expression<()>, min: nat) -> bool
    decreases e,
{
    match e {
        Expression::Binary(b) => operator_precedence(b.operator) >= min && precedence_ordered(
            b.left,
            operator_precedence(b.operator),
        ) && precedence_ordered(b.right, operator_precedence(b.operator) + 1),
        _ => true,
    }
}

proof fn lemma_precedence_ordered_weaker(e: Expression<()>, min: nat)
    requires
        precedence_ordered(e, min + 1),
    ensures
        precedence_ordered(e, min),
{
}

/// Whether calls, indexing and property accesses bind tighter than prefix and binary
/// operations: the operand of each of them, down the chain, is neither an unparenthesised
/// prefix operation nor an unparenthesised binary operation.
pub open spec fn postfix_binds_tightest(e: Expression<()>) -> bool
    decreases e,
{
    match e {
        Expression::Postfix(Postfix::Call { expr, .. }) => !(*expr is Prefix) && !(*expr is Binary)
            && postfix_binds_tightest(*expr),
        Expression::Postfix(Postfix::Index { expr, .. }) => !(*expr is Prefix) && !(*expr is Binary)
            && postfix_binds_tightest(*expr),
        Expression::Postfix(Postfix::PropertyAccess { expr, .. }) => !(*expr is Prefix) && !(
        *expr is Binary) && postfix_binds_tightest(*expr),
        _ => true,
    }
}

/// Whether prefix operations apply to whole postfix chains: under any number of `!` and `-`
/// lies an operand in which calls, indexing and property accesses bind tightest.
pub open spec fn prefix_over_postfix(e: Expression<()>) -> bool
    decreases e,
{
    match e {
        Expression::Prefix(Prefix::Negation { expr, .. }) => prefix_over_postfix(*expr),
        Expression::Prefix(Prefix::Minus { expr, .. }) => prefix_over_postfix(*expr),
        _ => postfix_binds_tightest(e),
    }
}

/// Whether an operator compares its operands.
pub open spec fn is_comparison(op: BinaryOperator) -> bool {
    op == BinaryOperator::Equals || op == BinaryOperator::GreaterThan || op == BinaryOperator::LessThan
        || op == BinaryOperator::GreaterOrEqual || op == BinaryOperator::LessOrEqual
}

/// Whether an operator adds or subtracts.
pub open spec fn is_additive(op: BinaryOperator) -> bool {
    op == BinaryOperator::Add || op == BinaryOperator::Substract
}

/// Whether an operator multiplies or divides.
pub open spec fn is_multiplicative(op: BinaryOperator) -> bool {
    op == BinaryOperator::Multiply || op == BinaryOperator::Divide
}

/// In an expression parsed by precedence, comparisons bind less tightly than `+` and `-`,
/// which bind less tightly than `*` and `/`: an operand of an addition or subtraction is
/// never an unparenthesised comparison, and an operand of a multiplication or division is
/// neither an unparenthesised comparison nor an unparenthesised addition or subtraction.
/// Operations of one level group to the left: the right operand of an operation is never an
/// unparenthesised operation of the same level.
pub proof fn law_precedence_of_parsed_operations(e: Expression<()>, min: nat)
    requires
        precedence_ordered(e, min),
    ensures
        e matches Expression::Binary(b) ==> {
            &&& is_additive(b.operator) ==> !(b.left matches Expression::Binary(l) && is_comparison(
                l.operator,
            )) && !(b.right matches Expression::Binary(r) && (is_comparison(r.operator)
                || is_additive(r.operator)))
            &&& is_multiplicative(b.operator) ==> !(b.left matches Expression::Binary(l) && (
            is_comparison(l.operator) || is_additive(l.operator))) && !(b.right is Binary)
            &&& is_comparison(b.operator) ==> !(b.right matches Expression::Binary(r) && is_comparison(
                r.operator,
            ))
        },
{
    match e {
        Expression::Binary(b) => {
            let p = operator_precedence(b.operator);
            assert(precedence_ordered(b.left, p));
            assert(precedence_ordered(b.right, p + 1));
            match b.left {
                Expression::Binary(l) => {
                    assert(operator_precedence(l.operator) >= p);
                },
                _ => {},
            }
            match b.right {
                Expression::Binary(r) => {
                    assert(operator_precedence(r.operator) >= p + 1);
                },
                _ => {},
            }
        },
        _ => {},
    }
}

proof fn lemma_level_is_precedence(o: BinaryOperator)
    ensures
        operator_level(o) as nat == operator_precedence(o),
{
}

/// The precedence level of a binary operator (0: comparisons, 1: `+` and `-`, 2: `*` and `/`).
pub open spec fn operator_level(o: BinaryOperator) -> u8 {
    match o {
        BinaryOperator::Add | BinaryOperator::Substract => 1,
        BinaryOperator::Multiply | BinaryOperator::Divide => 2,
        _ => 0,
    }
}

/// The binary operator spelled by the token under the cursor, at a precedence level
/// (0: comparisons, 1: `+` and `-`, 2: `*` and `/`).
fn operator_here(ts: &ParseState<Token>, level: u8) -> (op: Option<BinaryOperator>)
    requires
        ready(*ts),
    ensures
        op matches Some(o) ==> ts.spec_index() < ts.spec_tokens().len()
            && ts.spec_tokens()[ts.spec_index()].lexeme() == Lexeme::Term(operator_terminal(o))
            && operator_level(o) == (if level < 2 { level } else { 2u8 }),
        forall|o: BinaryOperator|
            ts.spec_index() < ts.spec_tokens().len()
                && ts.spec_tokens()[ts.spec_index()].lexeme() == Lexeme::Term(operator_terminal(o))
                && operator_level(o) == (if level < 2 { level } else { 2u8 }) ==> op == Some(o),
{
    match ts.peek() {
        Some(tok) => {
            let t = match tok {
                Token::Id { .. } | Token::Integer { .. } | Token::FloatingPoint { .. }
                | Token::Character { .. } | Token::String { .. } | Token::Comment { .. } => {
                    return None;
                },
                _ => tok.terminal(),
            };
            if level == 0 {
                match t {
                    Terminal::Equal => Some(BinaryOperator::Equals),
                    Terminal::GreaterThan => Some(BinaryOperator::GreaterThan),
                    Terminal::LessThan => Some(BinaryOperator::LessThan),
                    Terminal::GreaterOrEqual => Some(BinaryOperator::GreaterOrEqual),
                    Terminal::LessOrEqual => Some(BinaryOperator::LessOrEqual),
                    _ => None,
                }
            } else if level == 1 {
                match t {
                    Terminal::Plus => Some(BinaryOperator::Add),
                    Terminal::Minus => Some(BinaryOperator::Substract),
                    _ => None,
                }
            } else {
                match t {
                    Terminal::Times => Some(BinaryOperator::Multiply),
                    Terminal::Slash => Some(BinaryOperator::Divide),
                    _ => None,
                }
            }
        },
        None => None,
    }
}

/// Parse an expression.
pub fn parse_expression(ts: &mut ParseState<Token>) -> (r: Result<Expression<()>, ParseError>)
    requires
        ready(*old(ts)),
    ensures
        same_tokens(*old(ts), *final(ts)),
        r matches Ok(e) ==> spelled(*old(ts), *final(ts), render_expression(e)),
        single_operand(old(ts).spec_tokens(), old(ts).spec_index() as int) ==> r == Ok::<
            Expression<()>,
            ParseError,
        >(operand_expression(old(ts).spec_tokens()[old(ts).spec_index() as int]))
            && final(ts).spec_index() == old(ts).spec_index() + 1,
        r matches Ok(e) ==> precedence_ordered(e, 0),
    decreases old(ts).spec_tokens().len() - old(ts).spec_index(), 10nat,
{
    parse_binary(ts, 0)
}

/// Parse a left associative chain of binary operations at a precedence level and above.
fn parse_binary(ts: &mut ParseState<Token>, level: u8) -> (r: Result<Expression<()>, ParseError>)
    requires
        ready(*old(ts)),
        level <= 2,
    ensures
        same_tokens(*old(ts), *final(ts)),
        r matches Ok(e) ==> spelled(*old(ts), *final(ts), render_expression(e)),
        single_operand(old(ts).spec_tokens(), old(ts).spec_index() as int) ==> r == Ok::<
            Expression<()>,
            ParseError,
        >(operand_expression(old(ts).spec_tokens()[old(ts).spec_index() as int]))
            && final(ts).spec_index() == old(ts).spec_index() + 1,
        r matches Ok(e) ==> precedence_ordered(e, level as nat),
    decreases old(ts).spec_tokens().len() - old(ts).spec_index(), 9nat - level as nat,
{
    let ghost toks = ts.spec_tokens();
    let ghost i0 = ts.spec_index();
    let start = start_here(ts);
    let mut left = if level < 2 {
        parse_binary(ts, level + 1)?
    } else {
        parse_prefix(ts)?
    };
    loop
        invariant
            ready(*old(ts)),
            same_tokens(*old(ts), *ts),
            i0 == old(ts).spec_index(),
            toks == old(ts).spec_tokens(),
            i0 < ts.spec_index(),
            level <= 2,
            consumed(*old(ts), *ts) == render_expression(left),
            single_operand(toks, i0) ==> ts.spec_index() == i0 + 1 && left == operand_expression(
                toks[i0],
            ),
            precedence_ordered(left, level as nat),
        decreases ts.spec_tokens().len() - ts.spec_index(),
    {
        let op = match operator_here(ts, level) {
            Some(op) => op,
            None => {
                return Ok(left);
            },
        };
        let ghost i1 = ts.spec_index();
        proof {
            lemma_level_is_precedence(op);
        }
        ts.next();
        proof {
            lemma_lexemes_one(toks, i1);
        }
        let ghost i2 = ts.spec_index();
        let right = if level < 2 {
            parse_binary(ts, level + 1)?
        } else {
            parse_prefix(ts)?
        };
        let end = end_of_previous(ts);
        proof {
            lemma_lexemes_split(toks, i0, i1, i2);
            lemma_lexemes_split(toks, i0, i2, ts.spec_index());
            assert(operator_precedence(op) == level as nat);
            assert(precedence_ordered(right, level as nat + 1));
        }
        let ghost old_left = left;
        left = Expression::Binary(
            Box::new(
                BinaryExpression {
                    left,
                    right,
                    operator: op,
                    info: (),
                    position: Span { start, end },
                },
            ),
        );
        proof {
            let b = left->Binary_0;
            assert(b.left == old_left && b.right == right && b.operator == op);
            assert(precedence_ordered(left, level as nat));
        }
    }
}

/// Parse a prefix operation or a postfix expression.
fn parse_prefix(ts: &mut ParseState<Token>) -> (r: Result<Expression<()>, ParseError>)
    requires
        ready(*old(ts)),
    ensures
        same_tokens(*old(ts), *final(ts)),
        r matches Ok(e) ==> spelled(*old(ts), *final(ts), render_expression(e)),
        bare_operand(old(ts).spec_tokens(), old(ts).spec_index() as int) ==> r == Ok::<
            Expression<()>,
            ParseError,
        >(operand_expression(old(ts).spec_tokens()[old(ts).spec_index() as int]))
            && final(ts).spec_index() == old(ts).spec_index() + 1,
        r matches Ok(e) ==> !(e is Binary),
        r matches Ok(e) ==> prefix_over_postfix(e),
    decreases old(ts).spec_tokens().len() - old(ts).spec_index(), 6nat,
{
    let ghost toks = ts.spec_tokens();
    let ghost i0 = ts.spec_index();
    if at_terminal(ts, Terminal::ExclamationMark) || at_terminal(ts, Terminal::Minus) {
        let negation = at_terminal(ts, Terminal::ExclamationMark);
        let start = start_here(ts);
        ts.next();
        proof {
            lemma_lexemes_one(toks, i0);
        }
        let expr = parse_prefix(ts)?;
        let end = end_of_previous(ts);
        proof {
            lemma_lexemes_split(toks, i0, i0 + 1, ts.spec_index());
        }
        let position = Span { start, end };
        if negation {
            Ok(Expression::Prefix(Prefix::Negation { expr: Box::new(expr), position }))
        } else {
            Ok(Expression::Prefix(Prefix::Minus { expr: Box::new(expr), position }))
        }
    } else {
        parse_postfix(ts)
    }
}

/// Parse a primary expression followed by calls, indexing and property accesses.
fn parse_postfix(ts: &mut ParseState<Token>) -> (r: Result<Expression<()>, ParseError>)
    requires
        ready(*old(ts)),
    ensures
        same_tokens(*old(ts), *final(ts)),
        r matches Ok(e) ==> spelled(*old(ts), *final(ts), render_expression(e)),
        bare_operand(old(ts).spec_tokens(), old(ts).spec_index() as int) ==> r == Ok::<
            Expression<()>,
            ParseError,
        >(operand_expression(old(ts).spec_tokens()[old(ts).spec_index() as int]))
            && final(ts).spec_index() == old(ts).spec_index() + 1,
        r matches Ok(e) ==> !(e is Binary),
        r matches Ok(e) ==> postfix_binds_tightest(e),
        r matches Ok(e) ==> !(e is Prefix),
    decreases old(ts).spec_tokens().len() - old(ts).spec_index(), 5nat,
{
    let ghost toks = ts.spec_tokens();
    let ghost i0 = ts.spec_index();
    let start = start_here(ts);
    let mut expr = parse_primary(ts)?;
    loop
        invariant
            ready(*old(ts)),
            same_tokens(*old(ts), *ts),
            i0 == old(ts).spec_index(),
            toks == old(ts).spec_tokens(),
            i0 < ts.spec_index(),
            consumed(*old(ts), *ts) == render_expression(expr),
            bare_operand(toks, i0) ==> ts.spec_index() == i0 + 1 && expr == operand_expression(
                toks[i0],
            ),
            !(expr is Binary),
            !(expr is Prefix),
            postfix_binds_tightest(expr),
        decreases ts.spec_tokens().len() - ts.spec_index(),
    {
        let ghost i1 = ts.spec_index();
        let ghost prev = expr;
        if at_terminal(ts, Terminal::LParen) {
            expect(ts, Terminal::LParen, "left parenthesis")?;
            let ghost i2 = ts.spec_index();
            let args = parse_expression_list(ts, Terminal::RParen)?;
            let ghost i3 = ts.spec_index();
            expect(ts, Terminal::RParen, "right parenthesis")?;
            let end = end_of_previous(ts);
            proof {
                lemma_lexemes_split(toks, i0, i1, i2);
                lemma_lexemes_split(toks, i0, i2, i3);
                lemma_lexemes_split(toks, i0, i3, ts.spec_index());
                assert(lexemes(toks, i0, ts.spec_index()) =~= render_expression(prev) + term(Terminal::LParen) + render_expressions(args@) + term(Terminal::RParen));
            }
            let ghost p = Postfix::Call { expr: Box::new(prev), args, info: (), position: Span { start, end } };
            expr = Expression::Postfix(
                Postfix::Call { expr: Box::new(expr), args, info: (), position: Span { start, end } },
            );
            assert(expr == Expression::Postfix(p));
            assert(render_expression(expr) == render_postfix(p));
        } else if at_terminal(ts, Terminal::LBracket) {
            expect(ts, Terminal::LBracket, "left bracket")?;
            let ghost i2 = ts.spec_index();
            let index = parse_expression(ts)?;
            let ghost i3 = ts.spec_index();
            expect(ts, Terminal::RBracket, "right bracket")?;
            let end = end_of_previous(ts);
            proof {
                lemma_lexemes_split(toks, i0, i1, i2);
                lemma_lexemes_split(toks, i0, i2, i3);
                lemma_lexemes_split(toks, i0, i3, ts.spec_index());
                assert(lexemes(toks, i0, ts.spec_index()) =~= render_expression(prev) + term(Terminal::LBracket) + render_expression(index) + term(Terminal::RBracket));
            }
            let ghost p = Postfix::Index {
                    expr: Box::new(prev),
                    index: Box::new(index),
                    info: (),
                    position: Span { start, end },
                };
            expr = Expression::Postfix(
                Postfix::Index {
                    expr: Box::new(expr),
                    index: Box::new(index),
                    info: (),
                    position: Span { start, end },
                },
            );
            assert(expr == Expression::Postfix(p));
            assert(render_expression(expr) == render_postfix(p));
        } else if at_terminal(ts, Terminal::Dot) {
            expect(ts, Terminal::Dot, "dot")?;
            let ghost i2 = ts.spec_index();
            let property = parse_id(ts)?;
            let end = end_of_previous(ts);
            proof {
                lemma_lexemes_split(toks, i0, i1, i2);
                lemma_lexemes_split(toks, i0, i2, ts.spec_index());
                assert(lexemes(toks, i0, ts.spec_index()) =~= render_expression(prev) + term(Terminal::Dot) + render_id(property));
            }
            let ghost p = Postfix::PropertyAccess {
                    expr: Box::new(prev),
                    property,
                    info: (),
                    position: Span { start, end },
                };
            expr = Expression::Postfix(
                Postfix::PropertyAccess {
                    expr: Box::new(expr),
                    property,
                    info: (),
                    position: Span { start, end },
                },
            );
            assert(expr == Expression::Postfix(p));
            assert(render_expression(expr) == render_postfix(p));
        } else {
            return Ok(expr);
        }
    }
}

/// Parse an identifier.
pub fn parse_id(ts: &mut ParseState<Token>) -> (r: Result<Id<()>, ParseError>)
    requires
        ready(*old(ts)),
    ensures
        same_tokens(*old(ts), *final(ts)),
        r matches Ok(id) ==> spelled(*old(ts), *final(ts), render_id(id)),
        r is Ok <==> old(ts).spec_index() < old(ts).spec_tokens().len() && old(ts).spec_tokens()[old(
            ts,
        ).spec_index()] is Id,
        r matches Ok(id) ==> old(ts).spec_tokens()[old(ts).spec_index()] == (Token::Id {
            value: id.name,
            position: id.position,
        }) && final(ts).spec_index() == old(ts).spec_index() + 1,
        r matches Ok(id) ==> id == id_of(old(ts).spec_tokens()[old(ts).spec_index()]),
        r is Err ==> *final(ts) == *old(ts),
{
    let ghost toks = ts.spec_tokens();
    let ghost i0 = ts.spec_index();
    match ts.peek() {
        Some(Token::Id { value, position }) => {
            ts.next();
            proof {
                lemma_lexemes_one(toks, i0);
            }
            Ok(Id { name: value, info: (), position })
        },
        _ => Err(unexpected(ts, "identifier")),
    }
}

/// Parse expressions separated by commas, up to (not including) `closing`.
fn parse_expression_list(ts: &mut ParseState<Token>, closing: Terminal) -> (r: Result<
    Vec<Expression<()>>,
    ParseError,
>)
    requires
        ready(*old(ts)),
    ensures
        same_tokens(*old(ts), *final(ts)),
        r matches Ok(v) ==> old(ts).spec_index() <= final(ts).spec_index() && consumed(
            *old(ts),
            *final(ts),
        ) == render_expressions(v@),
        token_is(old(ts).spec_tokens(), old(ts).spec_index(), closing) ==> (r matches Ok(v) && v@.len() == 0) && final(ts).spec_index() == old(ts).spec_index(),
        !token_is(old(ts).spec_tokens(), old(ts).spec_index(), closing) && single_operand(old(ts).spec_tokens(), old(ts).spec_index()) && !token_is(old(ts).spec_tokens(), old(ts).spec_index() + 1, Terminal::Comma)
            ==> (r matches Ok(v) && v@ == seq![operand_expression(old(ts).spec_tokens()[old(ts).spec_index()])]) && final(ts).spec_index() == old(ts).spec_index() + 1,
    decreases old(ts).spec_tokens().len() - old(ts).spec_index(), 11nat,
{
    let ghost toks = ts.spec_tokens();
    let ghost i0 = ts.spec_index();
    let mut items: Vec<Expression<()>> = Vec::new();
    proof {
        lemma_lexemes_empty(toks, i0);
    }
    if at_terminal(ts, closing) {
        return Ok(items);
    }
    let first = parse_expression(ts)?;
    items.push(first);
    proof {
        assert(items@ =~= seq![first]);
    }
    while at_terminal(ts, Terminal::Comma)
        invariant
            ready(*old(ts)),
            same_tokens(*old(ts), *ts),
            i0 == old(ts).spec_index(),
            toks == old(ts).spec_tokens(),
            i0 < ts.spec_index(),
            items@.len() > 0,
            consumed(*old(ts), *ts) == render_expressions(items@),
            !token_is(toks, i0, closing),
            single_operand(toks, i0) && !token_is(toks, i0 + 1, Terminal::Comma) ==> ts.spec_index()
                == i0 + 1 && items@ == seq![operand_expression(toks[i0])],
        decreases ts.spec_tokens().len() - ts.spec_index(),
    {
        let ghost i1 = ts.spec_index();
        let ghost before = items@;
        expect(ts, Terminal::Comma, "comma")?;
        let ghost i2 = ts.spec_index();
        let next = parse_expression(ts)?;
        items.push(next);
        proof {
            lemma_lexemes_split(toks, i0, i1, i2);
            lemma_lexemes_split(toks, i0, i2, ts.spec_index());
            assert(items@.drop_last() =~= before);
        }
    }
    Ok(items)
}

/// Parse a primary expression: a literal, an identifier, a struct initialisation, a
/// parenthesised expression, a block, an `if`, a lambda or an array.
fn parse_primary(ts: &mut ParseState<Token>) -> (r: Result<Expression<()>, ParseError>)
    requires
        ready(*old(ts)),
    ensures
        same_tokens(*old(ts), *final(ts)),
        r matches Ok(e) ==> spelled(*old(ts), *final(ts), render_expression(e)),
        operand_token(old(ts).spec_tokens(), old(ts).spec_index() as int) ==> r == Ok::<
            Expression<()>,
            ParseError,
        >(operand_expression(old(ts).spec_tokens()[old(ts).spec_index() as int]))
            && final(ts).spec_index() == old(ts).spec_index() + 1,
        r matches Ok(e) ==> !(e is Binary),
        r matches Ok(e) ==> !(e is Prefix) && !(e is Postfix),
    decreases old(ts).spec_tokens().len() - old(ts).spec_index(), 4nat,
{
    let ghost toks = ts.spec_tokens();
    let ghost i0 = ts.spec_index();
    let tok = match ts.peek() {
        Some(tok) => tok,
        None => {
            return Err(ParseError::eof("expression"));
        },
    };
    match tok {
        Token::Id { .. } => {
            let id = parse_id(ts)?;
            if at_terminal(ts, Terminal::LBrace) {
                let s = parse_struct_initialisation(ts, id)?;
                proof {
                    lemma_lexemes_split(toks, i0, i0 + 1, ts.spec_index());
                }
                let e = Expression::StructInitialisation(s);
                assert(consumed(*old(ts), *ts) == render_expression(e));
                Ok(e)
            } else {
                let e = Expression::Id(id);
                assert(consumed(*old(ts), *ts) == render_expression(e));
                Ok(e)
            }
        },
        Token::Integer { value, position } => {
            ts.next();
            proof {
                lemma_lexemes_one(toks, i0);
            }
            let e = Expression::Num(Num::Integer(value, (), position));
            assert(consumed(*old(ts), *ts) == render_expression(e));

            Ok(e)
        },
        Token::FloatingPoint { value, position } => {
            ts.next();
            proof {
                lemma_lexemes_one(toks, i0);
            }
            let e = Expression::Num(Num::FloatingPoint(value, (), position));
            assert(consumed(*old(ts), *ts) == render_expression(e));
            Ok(e)
        },
        Token::Character { value, position } => {
            ts.next();
            proof {
                lemma_lexemes_one(toks, i0);
            }
            let e = Expression::Character(Character { character: value, position, info: () });
            assert(consumed(*old(ts), *ts) == render_expression(e));
            Ok(e)
        },
        Token::String { value, position } => {
            ts.next();
            proof {
                lemma_lexemes_one(toks, i0);
            }
            let e = Expression::AstString(AstString { value, info: (), position });
            assert(consumed(*old(ts), *ts) == render_expression(e));
            Ok(e)
        },
        Token::TrueKeyword { position } => {
            ts.next();
            proof {
                lemma_lexemes_one(toks, i0);
            }
            let e = Expression::Bool(Bool { value: true, position, info: () });
            assert(consumed(*old(ts), *ts) == render_expression(e));
            Ok(e)
        },
        Token::FalseKeyword { position } => {
            ts.next();
            proof {
                lemma_lexemes_one(toks, i0);
            }
            let e = Expression::Bool(Bool { value: false, position, info: () });
            assert(consumed(*old(ts), *ts) == render_expression(e));
            Ok(e)
        },
        Token::LParen { .. } => {
            expect(ts, Terminal::LParen, "left parenthesis")?;
            let inner = parse_expression(ts)?;
            let ghost i2 = ts.spec_index();
            expect(ts, Terminal::RParen, "right parenthesis")?;
            proof {
                lemma_lexemes_split(toks, i0, i0 + 1, i2);
                lemma_lexemes_split(toks, i0, i2, ts.spec_index());
                assert(lexemes(toks, i0, ts.spec_index()) =~= term(Terminal::LParen) + render_expression(inner) + term(Terminal::RParen));
            }
            let e = Expression::Parens(Box::new(inner));
            assert(consumed(*old(ts), *ts) == render_expression(e));
            Ok(e)
        },
        Token::LBrace { .. } => {
            let b = parse_block(ts)?;
            let e = Expression::Block(b);
            assert(consumed(*old(ts), *ts) == render_expression(e));
            Ok(e)
        },
        Token::IfKeyword { .. } => {
            let i = parse_if(ts)?;
            let e = Expression::If(i);
            assert(consumed(*old(ts), *ts) == render_expression(e));
            Ok(e)
        },
        Token::Backslash { .. } => {
            let l = parse_lambda(ts)?;
            let e = Expression::Lambda(l);
            assert(consumed(*old(ts), *ts) == render_expression(e));
            Ok(e)
        },
        Token::Ampersand { .. } => {
            let a = parse_array(ts)?;
            let e = Expression::Array(a);
            assert(consumed(*old(ts), *ts) == render_expression(e));
            Ok(e)
        },
        _ => Err(unexpected(ts, "expression")),
    }
}

/// Parse the fields of a struct initialisation whose name has just been parsed.
pub(crate) fn parse_struct_initialisation(ts: &mut ParseState<Token>, id: Id<()>) -> (r: Result<
    StructInitialisation<()>,
    ParseError,
>)
    requires
        ready(*old(ts)),
    ensures
        same_tokens(*old(ts), *final(ts)),
        r matches Ok(s) ==> {
            &&& spelled(*old(ts), *final(ts), term(Terminal::LBrace) + render_field_initialisations(s.fields@) + term(Terminal::RBrace))
            &&& s.id == id
        },
        empty_block_at(old(ts).spec_tokens(), old(ts).spec_index()) ==> (r matches Ok(s) && s.fields@.len() == 0 && s.id == id) && final(ts).spec_index()
            == old(ts).spec_index() + 2,
    decreases old(ts).spec_tokens().len() - old(ts).spec_index(), 3nat,
{
    let ghost toks = ts.spec_tokens();
    let ghost i0 = ts.spec_index();
    let start = id.position.start;
    expect(ts, Terminal::LBrace, "left brace")?;
    let mut fields: Vec<StructFieldInitialisation<()>> = Vec::new();
    let mut first = true;
    proof {
        lemma_lexemes_empty(toks, i0 + 1);
    }
    while !at_terminal(ts, Terminal::RBrace)
        invariant
            ready(*old(ts)),
            same_tokens(*old(ts), *ts),
            i0 == old(ts).spec_index(),
            toks == old(ts).spec_tokens(),
            i0 < ts.spec_index(),
            first <==> fields@.len() == 0,
            toks[i0].lexeme() == Lexeme::Term(Terminal::LBrace),
            lexemes(toks, i0 + 1, ts.spec_index()) == render_field_initialisations(fields@),
            empty_block_at(toks, i0) ==> ts.spec_index() == i0 + 1 && fields@.len() == 0,
        decreases ts.spec_tokens().len() - ts.spec_index(),
    {
        let ghost i1 = ts.spec_index();
        let ghost before = fields@;
        if !first {
            expect(ts, Terminal::Comma, "comma")?;
        }
        let ghost i2 = ts.spec_index();
        let name = parse_id(ts)?;
        let ghost i3 = ts.spec_index();
        expect(ts, Terminal::Colon, "colon")?;
        let ghost i4 = ts.spec_index();
        let value = parse_expression(ts)?;
        let end = end_of_previous(ts);
        let field_start = name.position.start;
        fields.push(
            StructFieldInitialisation {
                name,
                value,
                info: (),
                position: Span { start: field_start, end },
            },
        );
        first = false;
        proof {
            lemma_lexemes_split(toks, i0 + 1, i1, i2);
            lemma_lexemes_split(toks, i0 + 1, i2, i3);
            lemma_lexemes_split(toks, i0 + 1, i3, i4);
            lemma_lexemes_split(toks, i0 + 1, i4, ts.spec_index());
            assert(fields@.drop_last() =~= before);
            if before.len() == 0 {
                lemma_lexemes_empty(toks, i1);
                assert(fields@ =~= seq![fields@[0]]);
            }
        }
    }
    let ghost i5 = ts.spec_index();
    expect(ts, Terminal::RBrace, "right brace")?;
    let end = end_of_previous(ts);
    proof {
        lemma_lexemes_one(toks, i0);
        lemma_lexemes_split(toks, i0, i0 + 1, i5);
        lemma_lexemes_split(toks, i0, i5, ts.spec_index());
    }
    Ok(StructInitialisation { id, fields, info: (), position: Span { start, end } })
}

/// Parse a block `{ statements }`.
pub fn parse_block(ts: &mut ParseState<Token>) -> (r: Result<Block<()>, ParseError>)
    requires
        ready(*old(ts)),
    ensures
        same_tokens(*old(ts), *final(ts)),
        r matches Ok(b) ==> spelled(*old(ts), *final(ts), render_block(b)),
        empty_block_at(old(ts).spec_tokens(), old(ts).spec_index()) ==> (r matches Ok(b) && b.statements@.len() == 0 && b.position == (Span {
            start: old(ts).spec_tokens()[old(ts).spec_index()].spec_position().start,
            end: old(ts).spec_tokens()[old(ts).spec_index() + 1].spec_position().end,
        })) && final(ts).spec_index() == old(ts).spec_index() + 2,
    decreases old(ts).spec_tokens().len() - old(ts).spec_index(), 3nat,
{
    let ghost toks = ts.spec_tokens();
    let ghost i0 = ts.spec_index();
    let lbrace = expect(ts, Terminal::LBrace, "left brace")?;
    let mut statements: Vec<Statement<()>> = Vec::new();
    proof {
        lemma_lexemes_empty(toks, i0 + 1);
    }
    while !at_terminal(ts, Terminal::RBrace)
        invariant
            ready(*old(ts)),
            same_tokens(*old(ts), *ts),
            i0 == old(ts).spec_index(),
            toks == old(ts).spec_tokens(),
            i0 < ts.spec_index(),
            toks[i0].lexeme() == Lexeme::Term(Terminal::LBrace),
            lexemes(toks, i0 + 1, ts.spec_index()) == render_statements(statements@),
            empty_block_at(toks, i0) ==> ts.spec_index() == i0 + 1 && statements@.len() == 0,
        decreases ts.spec_tokens().len() - ts.spec_index(),
    {
        let ghost i1 = ts.spec_index();
        let ghost before = statements@;
        let statement = parse_statement(ts)?;
        statements.push(statement);
        proof {
            lemma_lexemes_split(toks, i0 + 1, i1, ts.spec_index());
            assert(statements@.drop_last() =~= before);
        }
    }
    let ghost i5 = ts.spec_index();
    expect(ts, Terminal::RBrace, "right brace")?;
    let end = end_of_previous(ts);
    proof {
        lemma_lexemes_one(toks, i0);
        lemma_lexemes_split(toks, i0, i0 + 1, i5);
        lemma_lexemes_split(toks, i0, i5, ts.spec_index());
    }
    Ok(Block { statements, info: (), position: Span { start: lbrace.start, end } })
}

/// Parse `if (condition) block [else block]`.
pub(crate) fn parse_if(ts: &mut ParseState<Token>) -> (r: Result<If<()>, ParseError>)
    requires
        ready(*old(ts)),
    ensures
        same_tokens(*old(ts), *final(ts)),
        r matches Ok(i) ==> spelled(*old(ts), *final(ts), render_if(i)),
        plain_if_at(old(ts).spec_tokens(), old(ts).spec_index()) ==> (r matches Ok(x) && *x.condition == operand_expression(old(ts).spec_tokens()[old(ts).spec_index() + 2])
            && x.then_block.statements@.len() == 0 && x.else_block.statements@.len() == 0) && final(ts).spec_index()
            == old(ts).spec_index() + 6,
    decreases old(ts).spec_tokens().len() - old(ts).spec_index(), 3nat,
{
    let ghost toks = ts.spec_tokens();
    let ghost i0 = ts.spec_index();
    let if_position = expect(ts, Terminal::IfKeyword, "if")?;
    expect(ts, Terminal::LParen, "left parenthesis")?;
    let condition = parse_expression(ts)?;
    let ghost i3 = ts.spec_index();
    expect(ts, Terminal::RParen, "right parenthesis")?;
    let then_block = parse_block(ts)?;
    let ghost i5 = ts.spec_index();
    proof {
        lemma_lexemes_one(toks, i0);
        lemma_lexemes_one(toks, i0 + 1);
        lemma_lexemes_split(toks, i0, i0 + 1, i0 + 2);
        lemma_lexemes_split(toks, i0, i0 + 2, i3);
        lemma_lexemes_split(toks, i0, i3, i3 + 1);
        lemma_lexemes_split(toks, i0, i3 + 1, i5);
    }
    if at_terminal(ts, Terminal::ElseKeyword) {
        expect(ts, Terminal::ElseKeyword, "else")?;
        let else_block = parse_block(ts)?;
        let end = end_of_previous(ts);
        let position = Span { start: if_position.start, end };
        if else_block.statements.len() == 0 && else_block.position == position {
            return Err(ParseError::at("inconsistent token positions", position));
        }
        proof {
            lemma_lexemes_split(toks, i0, i5, i5 + 1);
            lemma_lexemes_split(toks, i0, i5 + 1, ts.spec_index());
            assert(lexemes(toks, i0, ts.spec_index()) =~= term(Terminal::IfKeyword) + term(Terminal::LParen) + render_expression(condition) + term(Terminal::RParen) + render_block(then_block) + term(Terminal::ElseKeyword) + render_block(else_block));
        }
        let ghost cond = condition;
        let r = If { condition: Box::new(condition), then_block, else_block, info: (), position };
        proof {
            assert(render_if(r) == term(Terminal::IfKeyword) + term(Terminal::LParen) + render_expression(cond) + term(Terminal::RParen) + render_block(r.then_block) + term(Terminal::ElseKeyword) + render_block(r.else_block));
        }
        Ok(r)
    } else {
        let end = end_of_previous(ts);
        let position = Span { start: if_position.start, end };
        let else_block = Block { statements: Vec::new(), info: (), position };
        proof {
            assert(lexemes(toks, i0, ts.spec_index()) =~= term(Terminal::IfKeyword) + term(Terminal::LParen) + render_expression(condition) + term(Terminal::RParen) + render_block(then_block));
        }
        let ghost cond = condition;
        let r = If { condition: Box::new(condition), then_block, else_block, info: (), position };
        proof {
            assert(render_if(r) == term(Terminal::IfKeyword) + term(Terminal::LParen) + render_expression(cond) + term(Terminal::RParen) + render_block(r.then_block));
        }
        Ok(r)
    }
}

/// Parse `\(names) => expression`.
pub(crate) fn parse_lambda(ts: &mut ParseState<Token>) -> (r: Result<Lambda<()>, ParseError>)
    requires
        ready(*old(ts)),
    ensures
        same_tokens(*old(ts), *final(ts)),
        r matches Ok(l) ==> spelled(*old(ts), *final(ts), render_expression(Expression::Lambda(l))),
        plain_lambda_at(old(ts).spec_tokens(), old(ts).spec_index()) ==> (r matches Ok(l) && l.parameters@.len() == 0 && *l.expression
            == operand_expression(old(ts).spec_tokens()[old(ts).spec_index() + 4])) && final(ts).spec_index() == old(ts).spec_index() + 5,
    decreases old(ts).spec_tokens().len() - old(ts).spec_index(), 3nat,
{
    let ghost toks = ts.spec_tokens();
    let ghost i0 = ts.spec_index();
    let backslash = expect(ts, Terminal::Backslash, "backslash")?;
    expect(ts, Terminal::LParen, "left parenthesis")?;
    let mut parameters: Vec<LambdaParameter<()>> = Vec::new();
    let mut first = true;
    proof {
        lemma_lexemes_empty(toks, i0 + 2);
    }
    while !at_terminal(ts, Terminal::RParen)
        invariant
            ready(*old(ts)),
            same_tokens(*old(ts), *ts),
            i0 == old(ts).spec_index(),
            toks == old(ts).spec_tokens(),
            i0 + 2 <= ts.spec_index(),
            first <==> parameters@.len() == 0,
            toks[i0].lexeme() == Lexeme::Term(Terminal::Backslash),
            toks[i0 + 1].lexeme() == Lexeme::Term(Terminal::LParen),
            lexemes(toks, i0 + 2, ts.spec_index()) == render_lambda_parameters(parameters@),
            plain_lambda_at(toks, i0) ==> ts.spec_index() == i0 + 2 && parameters@.len() == 0,
        decreases ts.spec_tokens().len() - ts.spec_index(),
    {
        let ghost i1 = ts.spec_index();
        let ghost before = parameters@;
        if !first {
            expect(ts, Terminal::Comma, "comma")?;
        }
        let ghost i2 = ts.spec_index();
        let name = parse_id(ts)?;
        let position = name.position;
        parameters.push(LambdaParameter { name, info: (), position });
        first = false;
        proof {
            lemma_lexemes_split(toks, i0 + 2, i1, i2);
            lemma_lexemes_split(toks, i0 + 2, i2, ts.spec_index());
            assert(parameters@.drop_last() =~= before);
            if before.len() == 0 {
                lemma_lexemes_empty(toks, i1);
                assert(parameters@ =~= seq![parameters@[0]]);
            }
        }
    }
    let ghost i5 = ts.spec_index();
    expect(ts, Terminal::RParen, "right parenthesis")?;
    expect(ts, Terminal::BigRightArrow, "=>")?;
    let expression = parse_expression(ts)?;
    let end = end_of_previous(ts);
    proof {
        lemma_lexemes_one(toks, i0);
        lemma_lexemes_one(toks, i0 + 1);
        lemma_lexemes_split(toks, i0, i0 + 1, i0 + 2);
        lemma_lexemes_split(toks, i0, i0 + 2, i5);
        lemma_lexemes_split(toks, i0, i5, i5 + 1);
        lemma_lexemes_split(toks, i0, i5 + 1, i5 + 2);
        lemma_lexemes_split(toks, i0, i5 + 2, ts.spec_index());
    }
    Ok(
        Lambda {
            parameters,
            expression: Box::new(expression),
            info: (),
            position: Span { start: backslash.start, end },
        },
    )
}

/// Parse an array literal `&[values]`.
pub(crate) fn parse_array(ts: &mut ParseState<Token>) -> (r: Result<Array<()>, ParseError>)
    requires
        ready(*old(ts)),
    ensures
        same_tokens(*old(ts), *final(ts)),
        r matches Ok(a) ==> spelled(*old(ts), *final(ts), render_expression(Expression::Array(a))),
        empty_array_at(old(ts).spec_tokens(), old(ts).spec_index()) ==> (r matches Ok(Array::Literal { values, .. }) && values@.len() == 0)
            && final(ts).spec_index() == old(ts).spec_index() + 3,
    decreases old(ts).spec_tokens().len() - old(ts).spec_index(), 3nat,
{
    let ghost toks = ts.spec_tokens();
    let ghost i0 = ts.spec_index();
    let amp = expect(ts, Terminal::Ampersand, "ampersand")?;
    expect(ts, Terminal::LBracket, "left bracket")?;
    let values = parse_expression_list(ts, Terminal::RBracket)?;
    let ghost i3 = ts.spec_index();
    expect(ts, Terminal::RBracket, "right bracket")?;
    let end = end_of_previous(ts);
    proof {
        lemma_lexemes_one(toks, i0);
        lemma_lexemes_one(toks, i0 + 1);
        lemma_lexemes_split(toks, i0, i0 + 1, i0 + 2);
        lemma_lexemes_split(toks, i0, i0 + 2, i3);
        lemma_lexemes_split(toks, i0, i3, ts.spec_index());
    }
    Ok(Array::Literal { values, info: (), position: Span { start: amp.start, end } })
}

/// Parse the parameters of a function definition, up to (not including) the closing
/// parenthesis.
pub(crate) fn parse_parameters(ts: &mut ParseState<Token>) -> (r: Result<Vec<FunctionParameter<()>>, ParseError>)
    requires
        ready(*old(ts)),
    ensures
        same_tokens(*old(ts), *final(ts)),
        r matches Ok(v) ==> old(ts).spec_index() <= final(ts).spec_index() && consumed(
            *old(ts),
            *final(ts),
        ) == render_parameters(v@),
        token_is(old(ts).spec_tokens(), old(ts).spec_index(), Terminal::RParen) ==> (r matches Ok(v) && v@.len() == 0) && final(ts).spec_index() == old(ts).spec_index(),
{
    let ghost toks = ts.spec_tokens();
    let ghost i0 = ts.spec_index();
    let mut params: Vec<FunctionParameter<()>> = Vec::new();
    let mut first = true;
    proof {
        lemma_lexemes_empty(toks, i0);
    }
    while !at_terminal(ts, Terminal::RParen)
        invariant
            ready(*old(ts)),
            same_tokens(*old(ts), *ts),
            i0 == old(ts).spec_index(),
            toks == old(ts).spec_tokens(),
            i0 <= ts.spec_index(),
            first <==> params@.len() == 0,
            consumed(*old(ts), *ts) == render_parameters(params@),
            token_is(toks, i0, Terminal::RParen) ==> ts.spec_index() == i0 && params@.len() == 0,
        decreases ts.spec_tokens().len() - ts.spec_index(),
    {
        let ghost i1 = ts.spec_index();
        let ghost before = params@;
        if !first {
            expect(ts, Terminal::Comma, "comma")?;
        }
        let ghost i2 = ts.spec_index();
        let name = parse_id(ts)?;
        let ghost i3 = ts.spec_index();
        expect(ts, Terminal::Colon, "colon")?;
        let ghost i4 = ts.spec_index();
        let type_annotation = parse_type_name(ts)?;
        let end = end_of_previous(ts);
        let start = name.position.start;
        let param = FunctionParameter { name, type_annotation, info: (), position: Span { start, end } };
        proof {
            lemma_lexemes_split(toks, i2, i3, i4);
            lemma_lexemes_split(toks, i2, i4, ts.spec_index());
            assert(lexemes(toks, i2, ts.spec_index()) =~= render_parameter(param));
            lemma_lexemes_split(toks, i0, i1, i2);
            lemma_lexemes_split(toks, i0, i2, ts.spec_index());
        }
        params.push(param);
        first = false;
        proof {
            assert(params@.drop_last() =~= before);
            if before.len() == 0 {
                lemma_lexemes_empty(toks, i1);
                assert(params@ =~= seq![param]);
            }
        }
    }
    Ok(params)
}

/// Parse a function definition `fn name(parameters): type block`.
pub fn parse_function(ts: &mut ParseState<Token>) -> (r: Result<Function<()>, ParseError>)
    requires
        ready(*old(ts)),
    ensures
        same_tokens(*old(ts), *final(ts)),
        r matches Ok(f) ==> spelled(*old(ts), *final(ts), render_function(f)),
        empty_function_at(old(ts).spec_tokens(), old(ts).spec_index()) ==> (r matches Ok(f) && f.id == id_of(old(ts).spec_tokens()[old(ts).spec_index() + 1])
            && f.parameters@.len() == 0 && f.return_type == type_literal(old(ts).spec_tokens()[old(ts).spec_index() + 5])
            && f.body.statements@.len() == 0) && final(ts).spec_index() == old(ts).spec_index() + 8,
    decreases old(ts).spec_tokens().len() - old(ts).spec_index(), 11nat,
{
    let ghost toks = ts.spec_tokens();
    let ghost i0 = ts.spec_index();
    let fn_position = expect(ts, Terminal::FnKeyword, "fn keyword")?;
    let id = parse_id(ts)?;
    expect(ts, Terminal::LParen, "left parenthesis")?;
    let ghost i3 = ts.spec_index();
    let parameters = parse_parameters(ts)?;
    let ghost i4 = ts.spec_index();
    expect(ts, Terminal::RParen, "right parenthesis")?;
    expect(ts, Terminal::Colon, "colon")?;
    let ghost i6 = ts.spec_index();
    let return_type = parse_type_name(ts)?;
    let ghost i7 = ts.spec_index();
    let body = parse_block(ts)?;
    let end = end_of_previous(ts);
    let f = Function {
        id,
        parameters,
        return_type,
        body,
        info: (),
        position: Span { start: fn_position.start, end },
    };
    proof {
        lemma_lexemes_split(toks, i0, i0 + 1, i0 + 2);
        lemma_lexemes_split(toks, i0, i0 + 2, i3);
        lemma_lexemes_split(toks, i0, i3, i4);
        lemma_lexemes_split(toks, i0, i4, i4 + 1);
        lemma_lexemes_split(toks, i0, i4 + 1, i6);
        lemma_lexemes_split(toks, i0, i6, i7);
        lemma_lexemes_split(toks, i0, i7, ts.spec_index());
        assert(lexemes(toks, i0, ts.spec_index()) =~= render_function(f));
    }
    Ok(f)
}

/// Parse the fields of a struct declaration, up to (not including) the closing brace.
fn parse_field_declarations(ts: &mut ParseState<Token>) -> (r: Result<
    Vec<StructFieldDeclaration<()>>,
    ParseError,
>)
    requires
        ready(*old(ts)),
    ensures
        same_tokens(*old(ts), *final(ts)),
        r matches Ok(v) ==> old(ts).spec_index() <= final(ts).spec_index() && consumed(
            *old(ts),
            *final(ts),
        ) == render_field_declarations(v@),
        token_is(old(ts).spec_tokens(), old(ts).spec_index(), Terminal::RBrace) ==> (r matches Ok(v) && v@.len() == 0) && final(ts).spec_index() == old(ts).spec_index(),
{
    let ghost toks = ts.spec_tokens();
    let ghost i0 = ts.spec_index();
    let mut fields: Vec<StructFieldDeclaration<()>> = Vec::new();
    proof {
        lemma_lexemes_empty(toks, i0);
    }
    while !at_terminal(ts, Terminal::RBrace)
        invariant
            ready(*old(ts)),
            same_tokens(*old(ts), *ts),
            i0 == old(ts).spec_index(),
            toks == old(ts).spec_tokens(),
            i0 <= ts.spec_index(),
            consumed(*old(ts), *ts) == render_field_declarations(fields@),
            token_is(toks, i0, Terminal::RBrace) ==> ts.spec_index() == i0 && fields@.len() == 0,
        decreases ts.spec_tokens().len() - ts.spec_index(),
    {
        let ghost i1 = ts.spec_index();
        let ghost before = fields@;
        let name = parse_id(ts)?;
        let ghost i2 = ts.spec_index();
        expect(ts, Terminal::Colon, "colon")?;
        let ghost i3 = ts.spec_index();
        let type_annotation = parse_type_name(ts)?;
        let ghost i4 = ts.spec_index();
        expect(ts, Terminal::Semicolon, "semicolon")?;
        let end = end_of_previous(ts);
        let start = name.position.start;
        let field = StructFieldDeclaration { name, type_annotation, info: (), position: Span { start, end } };
        proof {
            lemma_lexemes_split(toks, i0, i1, i2);
            lemma_lexemes_split(toks, i0, i2, i3);
            lemma_lexemes_split(toks, i0, i3, i4);
            lemma_lexemes_split(toks, i0, i4, ts.spec_index());
        }
        fields.push(field);
        proof {
            assert(fields@.drop_last() =~= before);
            assert(lexemes(toks, i0, ts.spec_index()) =~= render_field_declarations(fields@));
        }
    }
    Ok(fields)
}

/// Parse a struct declaration `struct Name { field: type; ... }`.
pub fn parse_struct_declaration(ts: &mut ParseState<Token>) -> (r: Result<
    StructDeclaration<()>,
    ParseError,
>)
    requires
        ready(*old(ts)),
    ensures
        same_tokens(*old(ts), *final(ts)),
        r matches Ok(d) ==> spelled(*old(ts), *final(ts), render_struct_declaration(d)),
        empty_struct_at(old(ts).spec_tokens(), old(ts).spec_index()) ==> (r matches Ok(d) && d.id == id_of(old(ts).spec_tokens()[old(ts).spec_index() + 1]) && d.fields@.len()
            == 0) && final(ts).spec_index() == old(ts).spec_index() + 4,
{
    let ghost toks = ts.spec_tokens();
    let ghost i0 = ts.spec_index();
    let kw = expect(ts, Terminal::StructKeyword, "struct keyword")?;
    let id = parse_id(ts)?;
    expect(ts, Terminal::LBrace, "left brace")?;
    let ghost i3 = ts.spec_index();
    let fields = parse_field_declarations(ts)?;
    let ghost i4 = ts.spec_index();
    expect(ts, Terminal::RBrace, "right brace")?;
    let end = end_of_previous(ts);
    let d = StructDeclaration { id, fields, info: (), position: Span { start: kw.start, end } };
    proof {
        lemma_lexemes_split(toks, i0, i0 + 1, i0 + 2);
        lemma_lexemes_split(toks, i0, i0 + 2, i3);
        lemma_lexemes_split(toks, i0, i3, i4);
        lemma_lexemes_split(toks, i0, i4, ts.spec_index());
        assert(lexemes(toks, i0, ts.spec_index()) =~= render_struct_declaration(d));
    }
    Ok(d)
}

/// Parse a declaration `declare name: type;`.
pub fn parse_declaration(ts: &mut ParseState<Token>) -> (r: Result<Declaration<()>, ParseError>)
    requires
        ready(*old(ts)),
    ensures
        same_tokens(*old(ts), *final(ts)),
        r matches Ok(d) ==> spelled(*old(ts), *final(ts), render_declaration(d)),
        plain_declaration_at(old(ts).spec_tokens(), old(ts).spec_index()) ==> (r matches Ok(d) && d.name == id_of(old(ts).spec_tokens()[old(ts).spec_index() + 1])
            && d.type_annotation == type_literal(old(ts).spec_tokens()[old(ts).spec_index() + 3])) && final(ts).spec_index() == old(ts).spec_index() + 5,
{
    let ghost toks = ts.spec_tokens();
    let ghost i0 = ts.spec_index();
    let kw = expect(ts, Terminal::DeclareKeyword, "declare keyword")?;
    let name = parse_id(ts)?;
    expect(ts, Terminal::Colon, "colon")?;
    let ghost i3 = ts.spec_index();
    let type_annotation = parse_type_name(ts)?;
    let ghost i4 = ts.spec_index();
    expect(ts, Terminal::Semicolon, "semicolon")?;
    let end = end_of_previous(ts);
    let d = Declaration { name, type_annotation, info: (), position: Span { start: kw.start, end } };
    proof {
        lemma_lexemes_split(toks, i0, i0 + 1, i0 + 2);
        lemma_lexemes_split(toks, i0, i0 + 2, i3);
        lemma_lexemes_split(toks, i0, i3, i4);
        lemma_lexemes_split(toks, i0, i4, ts.spec_index());
        assert(lexemes(toks, i0, ts.spec_index()) =~= render_declaration(d));
    }
    Ok(d)
}

/// Parse a constant `const name: type = value;`.
pub fn parse_constant(ts: &mut ParseState<Token>) -> (r: Result<Constant<()>, ParseError>)
    requires
        ready(*old(ts)),
    ensures
        same_tokens(*old(ts), *final(ts)),
        r matches Ok(c) ==> spelled(*old(ts), *final(ts), render_constant(c)),
        plain_constant_at(old(ts).spec_tokens(), old(ts).spec_index()) ==> (r matches Ok(c) && c.id == id_of(old(ts).spec_tokens()[old(ts).spec_index() + 1]) && c.type_annotation
            == type_literal(old(ts).spec_tokens()[old(ts).spec_index() + 3]) && c.value == operand_expression(old(ts).spec_tokens()[old(ts).spec_index() + 5])) && final(ts).spec_index() == old(ts).spec_index() + 7,
    decreases old(ts).spec_tokens().len() - old(ts).spec_index(), 11nat,
{
    let ghost toks = ts.spec_tokens();
    let ghost i0 = ts.spec_index();
    let kw = expect(ts, Terminal::Const, "const keyword")?;
    let id = parse_id(ts)?;
    expect(ts, Terminal::Colon, "colon")?;
    let ghost i3 = ts.spec_index();
    let type_annotation = parse_type_name(ts)?;
    let ghost i4 = ts.spec_index();
    expect(ts, Terminal::Assign, "assignment operator")?;
    let ghost i5 = ts.spec_index();
    let value = parse_expression(ts)?;
    let ghost i6 = ts.spec_index();
    expect(ts, Terminal::Semicolon, "semicolon")?;
    let end = end_of_previous(ts);
    let c = Constant { id, type_annotation, value, info: (), position: Span { start: kw.start, end } };
    proof {
        lemma_lexemes_split(toks, i0, i0 + 1, i0 + 2);
        lemma_lexemes_split(toks, i0, i0 + 2, i3);
        lemma_lexemes_split(toks, i0, i3, i4);
        lemma_lexemes_split(toks, i0, i4, i5);
        lemma_lexemes_split(toks, i0, i5, i6);
        lemma_lexemes_split(toks, i0, i6, ts.spec_index());
        assert(lexemes(toks, i0, ts.spec_index()) =~= render_constant(c));
    }
    Ok(c)
}

/// Parse a variable initialisation `let [mut] name [: type] = value;`.
pub(crate) fn parse_initialisation(ts: &mut ParseState<Token>) -> (r: Result<Initialisation<()>, ParseError>)
    requires
        ready(*old(ts)),
    ensures
        same_tokens(*old(ts), *final(ts)),
        r matches Ok(i) ==> spelled(*old(ts), *final(ts), render_statement(Statement::Initialization(i))),
        plain_initialisation_at(old(ts).spec_tokens(), old(ts).spec_index()) ==> (r matches Ok(x) && x.id == id_of(old(ts).spec_tokens()[old(ts).spec_index() + 1]) && !x.mutable
            && x.type_annotation is None && x.value == operand_expression(old(ts).spec_tokens()[old(ts).spec_index() + 3])) && final(ts).spec_index() == old(ts).spec_index() + 5,
    decreases old(ts).spec_tokens().len() - old(ts).spec_index(), 11nat,
{
    let ghost toks = ts.spec_tokens();
    let ghost i0 = ts.spec_index();
    let kw = expect(ts, Terminal::Let, "let keyword")?;
    let mutable = at_terminal(ts, Terminal::Mut);
    if mutable {
        expect(ts, Terminal::Mut, "mut keyword")?;
    }
    let ghost i2 = ts.spec_index();
    let id = parse_id(ts)?;
    let ghost i3 = ts.spec_index();
    let type_annotation = if at_terminal(ts, Terminal::Colon) {
        expect(ts, Terminal::Colon, "colon")?;
        let t = parse_type_name(ts)?;
        proof {
            lemma_lexemes_split(toks, i3, i3 + 1, ts.spec_index());
        }
        Some(t)
    } else {
        proof {
            lemma_lexemes_empty(toks, i3);
        }
        None
    };
    let ghost i4 = ts.spec_index();
    expect(ts, Terminal::Assign, "assignment operator")?;
    let ghost i5 = ts.spec_index();
    let value = parse_expression(ts)?;
    let ghost i6 = ts.spec_index();
    expect(ts, Terminal::Semicolon, "semicolon")?;
    let end = end_of_previous(ts);
    let i = Initialisation {
        id,
        mutable,
        type_annotation,
        value,
        info: (),
        position: Span { start: kw.start, end },
    };
    proof {
        if mutable {
            lemma_lexemes_split(toks, i0 + 1, i0 + 2, i2);
        } else {
            lemma_lexemes_empty(toks, i0 + 1);
        }
        lemma_lexemes_split(toks, i0, i0 + 1, i2);
        lemma_lexemes_split(toks, i0, i2, i3);
        lemma_lexemes_split(toks, i0, i3, i4);
        lemma_lexemes_split(toks, i0, i4, i5);
        lemma_lexemes_split(toks, i0, i5, i6);
        lemma_lexemes_split(toks, i0, i6, ts.spec_index());
        assert(lexemes(toks, i0, ts.spec_index()) =~= render_statement(Statement::Initialization(i)));
    }
    Ok(i)
}

/// Parse `while (condition) block`.
pub(crate) fn parse_while(ts: &mut ParseState<Token>) -> (r: Result<WhileLoop<()>, ParseError>)
    requires
        ready(*old(ts)),
    ensures
        same_tokens(*old(ts), *final(ts)),
        r matches Ok(w) ==> spelled(*old(ts), *final(ts), render_statement(Statement::WhileLoop(w))),
        plain_while_at(old(ts).spec_tokens(), old(ts).spec_index()) ==> (r matches Ok(w) && w.condition == operand_expression(old(ts).spec_tokens()[old(ts).spec_index() + 2])
            && w.block.statements@.len() == 0) && final(ts).spec_index() == old(ts).spec_index() + 6,
    decreases old(ts).spec_tokens().len() - old(ts).spec_index(), 11nat,
{
    let ghost toks = ts.spec_tokens();
    let ghost i0 = ts.spec_index();
    let kw = expect(ts, Terminal::WhileKeyword, "while keyword")?;
    expect(ts, Terminal::LParen, "left parenthesis")?;
    let condition = parse_expression(ts)?;
    let ghost i3 = ts.spec_index();
    expect(ts, Terminal::RParen, "right parenthesis")?;
    let block = parse_block(ts)?;
    let end = end_of_previous(ts);
    let w = WhileLoop { condition, block, info: (), position: Span { start: kw.start, end } };
    proof {
        lemma_lexemes_one(toks, i0);
        lemma_lexemes_one(toks, i0 + 1);
        lemma_lexemes_split(toks, i0, i0 + 1, i0 + 2);
        lemma_lexemes_split(toks, i0, i0 + 2, i3);
        lemma_lexemes_split(toks, i0, i3, i3 + 1);
        lemma_lexemes_split(toks, i0, i3 + 1, ts.spec_index());
        assert(lexemes(toks, i0, ts.spec_index()) =~= render_statement(Statement::WhileLoop(w)));
    }
    Ok(w)
}

/// Turn an expression that stands left of `=` into the place it assigns to.
fn into_lvalue(e: Expression<()>) -> (r: Result<LValue<()>, Expression<()>>)
    ensures
        r matches Ok(l) ==> render_lvalue(l) == render_expression(e),
        r is Err <==> !(e is Id || (e matches Expression::Postfix(p) && !(p is Call))),
{
    match e {
        Expression::Id(id) => Ok(LValue::Id(id)),
        Expression::Postfix(p) => {
            if let Postfix::Call { .. } = p {
                Err(Expression::Postfix(p))
            } else {
                Ok(LValue::Postfix(p))
            }
        },
        other => Err(other),
    }
}

/// Parse a statement inside a block.
pub fn parse_statement(ts: &mut ParseState<Token>) -> (r: Result<Statement<()>, ParseError>)
    requires
        ready(*old(ts)),
    ensures
        same_tokens(*old(ts), *final(ts)),
        r matches Ok(s) ==> spelled(*old(ts), *final(ts), render_statement(s)),
        0 <= old(ts).spec_index() < old(ts).spec_tokens().len() && old(ts).spec_tokens()[old(ts).spec_index()] is Comment ==> r == Ok::<Statement<()>, ParseError>(
            Statement::Comment(comment_text(old(ts).spec_tokens()[old(ts).spec_index()])),
        ) && final(ts).spec_index() == old(ts).spec_index() + 1,
        single_operand(old(ts).spec_tokens(), old(ts).spec_index()) && token_is(old(ts).spec_tokens(), old(ts).spec_index() + 1, Terminal::Semicolon) ==> r == Ok::<
            Statement<()>,
            ParseError,
        >(Statement::Expression(operand_expression(old(ts).spec_tokens()[old(ts).spec_index()]))) && final(ts).spec_index() == old(ts).spec_index() + 2,
        single_operand(old(ts).spec_tokens(), old(ts).spec_index()) && token_is(old(ts).spec_tokens(), old(ts).spec_index() + 1, Terminal::RBrace) ==> r == Ok::<
            Statement<()>,
            ParseError,
        >(Statement::YieldingExpression(operand_expression(old(ts).spec_tokens()[old(ts).spec_index()]))) && final(ts).spec_index() == old(ts).spec_index() + 1,
        token_is(old(ts).spec_tokens(), old(ts).spec_index(), Terminal::ReturnKeyword) && single_operand(old(ts).spec_tokens(), old(ts).spec_index() + 1) && token_is(
            old(ts).spec_tokens(),
            old(ts).spec_index() + 2,
            Terminal::Semicolon,
        ) ==> r == Ok::<Statement<()>, ParseError>(Statement::Return(operand_expression(old(ts).spec_tokens()[old(ts).spec_index() + 1])))
            && final(ts).spec_index() == old(ts).spec_index() + 3,
        plain_initialisation_at(old(ts).spec_tokens(), old(ts).spec_index()) || plain_constant_at(old(ts).spec_tokens(), old(ts).spec_index()) || plain_declaration_at(old(ts).spec_tokens(), old(ts).spec_index())
            || empty_struct_at(old(ts).spec_tokens(), old(ts).spec_index()) || empty_function_at(old(ts).spec_tokens(), old(ts).spec_index()) || plain_while_at(old(ts).spec_tokens(), old(ts).spec_index()) ==> r is Ok,
    decreases old(ts).spec_tokens().len() - old(ts).spec_index(), 12nat,
{
    let ghost toks = ts.spec_tokens();
    let ghost i0 = ts.spec_index();
    let tok = match ts.peek() {
        Some(tok) => tok,
        None => {
            return Err(ParseError::eof("statement"));
        },
    };
    match tok {
        Token::Comment { value, .. } => {
            ts.next();
            proof {
                lemma_lexemes_one(toks, i0);
            }
            let s = Statement::Comment(value);
            assert(consumed(*old(ts), *ts) == render_statement(s));
            return Ok(s);
        },
        Token::FnKeyword { .. } => {
            let f = parse_function(ts)?;
            let s = Statement::Function(f);
            assert(consumed(*old(ts), *ts) == render_statement(s));
            return Ok(s);
        },
        Token::Let { .. } => {
            let i = parse_initialisation(ts)?;
            return Ok(Statement::Initialization(i));
        },
        Token::Const { .. } => {
            let c = parse_constant(ts)?;
            let s = Statement::Constant(c);
            assert(consumed(*old(ts), *ts) == render_statement(s));
            return Ok(s);
        },
        Token::WhileKeyword { .. } => {
            let w = parse_while(ts)?;
            return Ok(Statement::WhileLoop(w));
        },
        Token::DeclareKeyword { .. } => {
            let d = parse_declaration(ts)?;
            let s = Statement::Declaration(d);
            assert(consumed(*old(ts), *ts) == render_statement(s));
            return Ok(s);
        },
        Token::StructKeyword { .. } => {
            let d = parse_struct_declaration(ts)?;
            let s = Statement::StructDeclaration(d);
            assert(consumed(*old(ts), *ts) == render_statement(s));
            return Ok(s);
        },
        Token::ReturnKeyword { .. } => {
            expect(ts, Terminal::ReturnKeyword, "return keyword")?;
            let e = parse_expression(ts)?;
            let ghost i2 = ts.spec_index();
            expect(ts, Terminal::Semicolon, "semicolon")?;
            let s = Statement::Return(e);
            proof {
                lemma_lexemes_split(toks, i0, i0 + 1, i2);
                lemma_lexemes_split(toks, i0, i2, ts.spec_index());
                assert(consumed(*old(ts), *ts) =~= render_statement(s));
            }
            return Ok(s);
        },
        _ => {},
    }
    let expr = parse_expression(ts)?;
    let ghost i1 = ts.spec_index();
    if at_terminal(ts, Terminal::Semicolon) {
        expect(ts, Terminal::Semicolon, "semicolon")?;
        let s = Statement::Expression(expr);
        proof {
            lemma_lexemes_split(toks, i0, i1, ts.spec_index());
            assert(consumed(*old(ts), *ts) =~= render_statement(s));
        }
        Ok(s)
    } else if at_terminal(ts, Terminal::RBrace) {
        let s = Statement::YieldingExpression(expr);
        assert(consumed(*old(ts), *ts) == render_statement(s));
        Ok(s)
    } else if at_terminal(ts, Terminal::Assign) {
        let start = start_here(ts);
        let ghost e = expr;
        let lvalue = match into_lvalue(expr) {
            Ok(l) => l,
            Err(_) => {
                return Err(ParseError::at("invalid left side of an assignment", Span { start, end: start }));
            },
        };
        expect(ts, Terminal::Assign, "assignment operator")?;
        let rvalue = parse_expression(ts)?;
        let ghost i3 = ts.spec_index();
        let assign_start = lvalue_start(&lvalue);
        expect(ts, Terminal::Semicolon, "semicolon")?;
        let end = end_of_previous(ts);
        let s = Statement::Assignment(
            Assignment { lvalue, rvalue, info: (), position: Span { start: assign_start, end } },
        );
        proof {
            lemma_lexemes_split(toks, i0, i1, i1 + 1);
            lemma_lexemes_split(toks, i0, i1 + 1, i3);
            lemma_lexemes_split(toks, i0, i3, ts.spec_index());
            assert(consumed(*old(ts), *ts) =~= render_statement(s));
        }
        Ok(s)
    } else {
        Err(unexpected(ts, "semicolon"))
    }
}

/// Where an assignment target starts.
fn lvalue_start(l: &LValue<()>) -> (r: usize)
    ensures
        r == match *l {
            LValue::Id(id) => id.position.start,
            LValue::Postfix(Postfix::Call { position, .. }) => position.start,
            LValue::Postfix(Postfix::Index { position, .. }) => position.start,
            LValue::Postfix(Postfix::PropertyAccess { position, .. }) => position.start,
        },
{
    match l {
        LValue::Id(id) => id.position.start,
        LValue::Postfix(Postfix::Call { position, .. }) => position.start,
        LValue::Postfix(Postfix::Index { position, .. }) => position.start,
        LValue::Postfix(Postfix::PropertyAccess { position, .. }) => position.start,
    }
}

} // verus!
