use why_lib::lexer::{Span, Token};
use why_lib::parser::ast::{AstNode, Id, Num};
use why_lib::parser::combinators::Comb;

#[test]
    fn test_sequence_simple() {
        let left = Comb::LET();
        let right = Comb::ASSIGN();
        let new = left >> right;

        assert_eq!(
            Comb::Sequence {
                current: Box::new(Comb::LET()),
                next: Box::new(Comb::ASSIGN())
            },
            new
        );
    }

#[test]
    fn test_sequence_complex() {
        let a = Comb::LET();
        let b = Comb::ASSIGN();
        let c = Comb::SEMI();
        let new = a >> b >> c;

        assert_eq!(
            Comb::Sequence {
                current: Box::new(Comb::Sequence {
                    current: Box::new(Comb::LET()),
                    next: Box::new(Comb::ASSIGN()),
                }),
                next: Box::new(Comb::SEMI())
            },
            new
        );
    }

#[test]
    fn test_either_simple() {
        let left = Comb::LET();
        let right = Comb::ASSIGN();
        let new = left | right;

        assert_eq!(
            Comb::Either {
                left: Box::new(Comb::LET()),
                right: Box::new(Comb::ASSIGN())
            },
            new
        );
    }

#[test]
    fn test_either_complex() {
        let a = Comb::LET();
        let b = Comb::ASSIGN();
        let c = Comb::SEMI();
        let new = a | b | c;

        assert_eq!(
            Comb::Either {
                left: Box::new(Comb::Either {
                    left: Box::new(Comb::LET()),
                    right: Box::new(Comb::ASSIGN()),
                }),
                right: Box::new(Comb::SEMI())
            },
            new
        );
    }

#[test]
    fn test_optional_simple() {
        let a = !Comb::LET();

        assert_eq!(
            Comb::Optional {
                inner: Box::new(Comb::LET())
            },
            a
        )
    }

#[test]
    fn test_parse_optional_matching_terminal() {
        let a = !Comb::LET();
        let mut tokens = vec![Token::Let {
            position: Span::default(),
        }]
        .into();
        let result = a.parse(&mut tokens);

        assert_eq!(Ok(vec![]), result);
        assert_eq!(tokens.get_index(), 1);
    }

#[test]
    fn test_parse_optional_not_matching_terminal() {
        let a = !Comb::LET();
        let mut tokens = vec![Token::Assign {
            position: Span::default(),
        }]
        .into();
        let result = a.parse(&mut tokens);

        assert_eq!(Ok(vec![]), result);
        assert_eq!(tokens.get_index(), 0);
    }

#[test]
    fn test_parse_optional_matching_node() {
        let a = !Comb::NUM();
        let mut tokens = vec![Token::Integer {
            value: 42,
            position: Span::default(),
        }]
        .into();
        let result = a.parse(&mut tokens);

        assert_eq!(
            Ok(vec![AstNode::Num(Num::Integer(42, (), Span::default()))]),
            result
        );
        assert_eq!(tokens.get_index(), 1);
    }

#[test]
    fn test_parse_optional_not_matching_node() {
        let a = !Comb::NUM();
        let mut tokens = vec![Token::Id {
            value: "some_id".into(),
            position: Span::default(),
        }]
        .into();
        let result = a.parse(&mut tokens);

        assert_eq!(Ok(vec![]), result);
        assert_eq!(tokens.get_index(), 0);
    }

#[test]
    fn test_repition_simple() {
        assert_eq!(
            Comb::Repitition {
                inner: Box::new(Comb::LET()),
                amount: Some(5)
            },
            Comb::LET() ^ 5
        );
        assert_eq!(
            Comb::Repitition {
                inner: Box::new(Comb::LET()),
                amount: None
            },
            Comb::LET() ^ ()
        );
    }

#[test]
    fn test_parse_repition_simple_matching() {
        let a = Comb::LET() ^ 5;
        let mut tokens = vec![
            Token::Let {
                position: Span::default(),
            },
            Token::Let {
                position: Span::default(),
            },
            Token::Let {
                position: Span::default(),
            },
            Token::Let {
                position: Span::default(),
            },
            Token::Let {
                position: Span::default(),
            },
        ]
        .into();
        let result = a.parse(&mut tokens);
        assert_eq!(Ok(vec![]), result);
        assert_eq!(tokens.get_index(), 5);
    }

#[test]
    fn test_parse_repition_simple_not_matching() {
        let a = Comb::LET() ^ 5;
        let mut tokens = vec![
            Token::Let {
                position: Span::default(),
            },
            Token::Let {
                position: Span::default(),
            },
            Token::Assign {
                position: Span::default(),
            },
            Token::Let {
                position: Span::default(),
            },
            Token::Let {
                position: Span::default(),
            },
        ]
        .into();
        let result = a.parse(&mut tokens);
        assert!(result.is_err());
    }

#[test]
    fn test_parse_repition_simple_wildcard() {
        let a = Comb::LET() ^ ();
        let mut tokens = vec![
            Token::Let {
                position: Span::default(),
            },
            Token::Let {
                position: Span::default(),
            },
            Token::Assign {
                position: Span::default(),
            },
            Token::Let {
                position: Span::default(),
            },
            Token::Let {
                position: Span::default(),
            },
        ]
        .into();
        let result = a.parse(&mut tokens);
        assert_eq!(Ok(vec![]), result);
        assert_eq!(tokens.get_index(), 2);
    }

#[test]
    fn test_parse_repition_node() {
        let a = Comb::NUM() ^ 3;
        let mut tokens = vec![
            Token::Integer {
                value: 42,
                position: Span::default(),
            },
            Token::Integer {
                value: 1337,
                position: Span::default(),
            },
            Token::Integer {
                value: 17,
                position: Span::default(),
            },
        ]
        .into();
        let result = a.parse(&mut tokens);

        assert_eq!(
            Ok(vec![
                AstNode::Num(Num::Integer(42, (), Span::default())),
                AstNode::Num(Num::Integer(1337, (), Span::default())),
                AstNode::Num(Num::Integer(17, (), Span::default()))
            ]),
            result
        );
        assert_eq!(tokens.get_index(), 3);
    }

#[test]
    fn test_parse_repition_node_wildcard() {
        let a = Comb::NUM() ^ ();
        let mut tokens = vec![
            Token::Integer {
                value: 42,
                position: Span::default(),
            },
            Token::Integer {
                value: 1337,
                position: Span::default(),
            },
            Token::Integer {
                value: 17,
                position: Span::default(),
            },
            Token::Let {
                position: Span::default(),
            },
            Token::Let {
                position: Span::default(),
            },
        ]
        .into();
        let result = a.parse(&mut tokens);

        assert_eq!(
            Ok(vec![
                AstNode::Num(Num::Integer(42, (), Span::default())),
                AstNode::Num(Num::Integer(1337, (), Span::default())),
                AstNode::Num(Num::Integer(17, (), Span::default()))
            ]),
            result
        );
        assert_eq!(tokens.get_index(), 3);
    }

#[test]
    fn test_parse_terminal_simple() {
        let a = Comb::LET();
        let mut tokens = vec![Token::Let {
            position: Span::default(),
        }]
        .into();
        let result = a.parse(&mut tokens);

        assert_eq!(Ok(vec![]), result);
        assert_eq!(tokens.get_index(), 1);
    }

#[test]
    fn test_parse_node_simple() {
        let a = Comb::NUM();
        let mut tokens = vec![Token::Integer {
            value: 42,
            position: Span::default(),
        }]
        .into();
        let result = a.parse(&mut tokens);

        assert_eq!(
            Ok(vec![AstNode::Num(Num::Integer(42, (), Span::default()))]),
            result
        );
        assert_eq!(tokens.get_index(), 1);
    }

#[test]
    fn test_parse_shr() {
        let matcher = Comb::LET() >> Comb::NUM();
        let mut tokens = vec![
            Token::Let {
                position: Span::default(),
            },
            Token::Integer {
                value: 42,
                position: Span::default(),
            },
        ]
        .into();
        let result = matcher.parse(&mut tokens);
        assert_eq!(
            Ok(vec![AstNode::Num(Num::Integer(42, (), Span::default()))]),
            result
        );
        assert_eq!(tokens.get_index(), 2);
    }

#[test]
    fn test_parse_bitor() {
        let matcher = Comb::ID() | Comb::NUM();
        let mut tokens = vec![Token::Integer {
            value: 42,
            position: Span::default(),
        }]
        .into();
        let result = matcher.parse(&mut tokens);

        assert_eq!(
            Ok(vec![AstNode::Num(Num::Integer(42, (), Span::default()))]),
            result
        );
        assert_eq!(tokens.get_index(), 1);

        let mut tokens = vec![Token::Id {
            value: "some_id".into(),
            position: Span::default(),
        }]
        .into();
        let result = matcher.parse(&mut tokens);
        assert_eq!(
            Ok(vec![AstNode::Id(Id {
                name: "some_id".into(),
                info: (),
                position: Span::default(),
            })]),
            result
        );
        assert_eq!(tokens.get_index(), 1);
    }

#[test]
    fn test_parse_simple_error() {
        let a = Comb::LET();
        let mut tokens = vec![Token::Integer {
            value: 42,
            position: Span::default(),
        }]
        .into();
        let result = a.parse(&mut tokens);

        assert!(result.is_err());
        assert_eq!(tokens.get_index(), 1);
    }

#[test]
fn test_comb_equality_compares_structure() {
    assert_eq!(Comb::LET() >> Comb::ASSIGN(), Comb::LET() >> Comb::ASSIGN());
    assert_ne!(Comb::LET() >> Comb::ASSIGN(), Comb::LET() | Comb::ASSIGN());
    assert_ne!(Comb::LET(), Comb::MUT());
    assert_eq!(!Comb::LET(), !Comb::LET());
}

#[test]
fn test_comb_node_parsers_are_never_equal() {
    assert_ne!(Comb::ID(), Comb::ID());
    assert_ne!(!Comb::ID(), !Comb::ID());
}
