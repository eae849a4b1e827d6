use why_lib::lexer::{lex, Span, Token};

#[test]
fn test_lex_identifier_and_integer() {
    let tokens = lex("let x = 42;").expect("the source lexes");
    assert_eq!(
        tokens,
        vec![
            Token::Let { position: Span { start: 0, end: 3 } },
            Token::Id { value: "x".to_string(), position: Span { start: 4, end: 5 } },
            Token::Assign { position: Span { start: 6, end: 7 } },
            Token::Integer { value: 42, position: Span { start: 8, end: 10 } },
            Token::Semicolon { position: Span { start: 10, end: 11 } },
        ]
    );
}

#[test]
fn test_lex_whitespace_only_gives_no_tokens() {
    assert_eq!(lex(" \n\t ").expect("the source lexes"), vec![]);
}

#[test]
fn test_lex_unexpected_character_is_reported_where_it_stands() {
    let error = lex("x $ y").unwrap_err();
    assert_eq!(error.position, Some(Span { start: 2, end: 3 }));
}

#[test]
fn test_lex_unterminated_string_is_reported_at_its_quote() {
    let error = lex("let s = \"open").unwrap_err();
    assert_eq!(error.position, Some(Span { start: 8, end: 9 }));
}

#[test]
fn test_lex_too_large_integer_is_reported() {
    let error = lex("99999999999999999999").unwrap_err();
    assert_eq!(error.position, Some(Span { start: 0, end: 1 }));
}

#[test]
fn test_lex_large_number_with_fraction_is_a_float() {
    let tokens = lex("99999999999999999999.5").expect("the source lexes");
    assert_eq!(tokens.len(), 1);
    assert!(matches!(tokens[0], Token::FloatingPoint { .. }));
}

#[test]
fn test_lex_bad_character_literal_is_reported() {
    let error = lex("'ab'").unwrap_err();
    assert_eq!(error.position, Some(Span { start: 0, end: 1 }));
}
