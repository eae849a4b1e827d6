use why_lib::lexer::{Span, Token};
use why_lib::parser::ast::{AstNode, Expression, Id, Num, TypeName};
use why_lib::parser::combinators::{parse_node, NodeParser};
use why_lib::parser::direct_parsing::DirectParser;
use why_lib::parser::{ParseError, ParseState};

fn integer(value: u64) -> Token {
    Token::Integer {
        value,
        position: Span::default(),
    }
}

fn id(name: &str) -> Token {
    Token::Id {
        value: name.into(),
        position: Span::default(),
    }
}

fn comma() -> Token {
    Token::Comma {
        position: Span::default(),
    }
}

fn number(ts: &mut ParseState<Token>) -> Result<AstNode, ParseError> {
    parse_node(NodeParser::Num, ts)
}

fn separator(ts: &mut ParseState<Token>) -> Result<(), ParseError> {
    DirectParser::parse_terminal(ts, |t: &Token| matches!(t, Token::Comma { .. }), "comma")
}

fn num_node(value: u64) -> AstNode {
    AstNode::Num(Num::Integer(value, (), Span::default()))
}

#[test]
fn direct_optional_gives_the_item() {
    let mut tokens: ParseState<Token> = vec![integer(7)].into();
    let result = DirectParser::parse_optional(&mut tokens, number);
    assert_eq!(result, Ok(Some(num_node(7))));
    assert_eq!(tokens.get_index(), 1);
}

#[test]
fn direct_optional_restores_the_cursor() {
    let mut tokens: ParseState<Token> = vec![id("x")].into();
    let result = DirectParser::parse_optional(&mut tokens, number);
    assert_eq!(result, Ok(None));
    assert_eq!(tokens.get_index(), 0);
}

#[test]
fn direct_repetition_collects_until_failure() {
    let mut tokens: ParseState<Token> = vec![integer(1), integer(2), id("x")].into();
    let result = DirectParser::parse_repetition(&mut tokens, number);
    assert_eq!(result, Ok(vec![num_node(1), num_node(2)]));
    assert_eq!(tokens.get_index(), 2);
}

#[test]
fn direct_repetition_empty_when_the_first_item_fails() {
    let mut tokens: ParseState<Token> = vec![id("x")].into();
    let result = DirectParser::parse_repetition(&mut tokens, number);
    assert_eq!(result, Ok(vec![]));
    assert_eq!(tokens.get_index(), 0);
}

#[test]
fn direct_separated_items() {
    let mut tokens: ParseState<Token> = vec![integer(1), comma(), integer(2)].into();
    let result = DirectParser::parse_separated(&mut tokens, number, separator);
    assert_eq!(result, Ok(vec![num_node(1), num_node(2)]));
    assert_eq!(tokens.get_index(), 3);
}

#[test]
fn direct_separated_empty_when_the_first_item_fails() {
    let mut tokens: ParseState<Token> = vec![id("x"), comma()].into();
    let result = DirectParser::parse_separated(&mut tokens, number, separator);
    assert_eq!(result, Ok(vec![]));
}

#[test]
fn direct_separated_fails_after_a_dangling_separator() {
    let mut tokens: ParseState<Token> = vec![integer(1), comma(), id("x")].into();
    let result = DirectParser::parse_separated(&mut tokens, number, separator);
    assert!(result.is_err());
}

#[test]
fn node_of_one_identifier() {
    let mut tokens: ParseState<Token> = vec![id("foo")].into();
    let result = parse_node(NodeParser::Id, &mut tokens);
    assert_eq!(
        result,
        Ok(AstNode::Id(Id {
            name: "foo".into(),
            info: (),
            position: Span::default()
        }))
    );
    assert_eq!(tokens.get_index(), 1);
}

#[test]
fn node_of_one_type_name() {
    let mut tokens: ParseState<Token> = vec![id("i64")].into();
    let result = parse_node(NodeParser::TypeName, &mut tokens);
    assert_eq!(
        result,
        Ok(AstNode::TypeName(TypeName::Literal(
            "i64".into(),
            Span::default()
        )))
    );
}

#[test]
fn node_of_one_operand_expression() {
    let mut tokens: ParseState<Token> = vec![integer(5), comma()].into();
    let result = parse_node(NodeParser::Expression, &mut tokens);
    assert_eq!(
        result,
        Ok(AstNode::Expression(Expression::Num(Num::Integer(
            5,
            (),
            Span::default()
        ))))
    );
    assert_eq!(tokens.get_index(), 1);
}

#[test]
fn node_of_the_wrong_token_fails() {
    let mut tokens: ParseState<Token> = vec![id("x")].into();
    assert!(parse_node(NodeParser::Num, &mut tokens).is_err());
    assert!(parse_node(NodeParser::Character, &mut tokens).is_err());
}

fn stays(_ts: &mut ParseState<Token>) -> Result<u8, ParseError> {
    Ok(7)
}

#[test]
fn direct_repetition_calls_the_parser_past_the_end() {
    let mut tokens: ParseState<Token> = vec![integer(1)].into();
    tokens.set_index(4);
    let result = DirectParser::parse_repetition(&mut tokens, stays);
    assert_eq!(result, Ok(vec![7]));
    assert_eq!(tokens.get_index(), 4);
}

#[test]
fn direct_separated_stops_at_the_first_failing_separator() {
    let mut tokens: ParseState<Token> = vec![integer(1), comma(), integer(2), id("x")].into();
    let result = DirectParser::parse_separated(&mut tokens, number, separator);
    assert_eq!(result, Ok(vec![num_node(1), num_node(2)]));
    assert_eq!(tokens.get_index(), 3);
}
