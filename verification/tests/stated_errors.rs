use why_lib::lexer::{Span, Token};
use why_lib::parser::ast::{BinaryExpression, BinaryOperator, Expression, Id, Lambda, Num, Postfix};
use why_lib::parser::combinators::Comb;
use why_lib::parser::direct_parsing::DirectParser;
use why_lib::parser::ParseState;
use why_lib::typechecker::context::Context;
use why_lib::typechecker::error::{TypeCheckError, TypeMismatch};
use why_lib::typechecker::types::Type;
use why_lib::typechecker::TypeInformation;

fn span(start: usize, end: usize) -> Span {
    Span { start, end }
}

#[test]
fn call_with_too_few_arguments_is_a_mismatch_of_function_types() {
    let d = Span::default();
    let mut ctx = Context::default();
    ctx.scope
        .add_constant(
            "foo",
            Type::Function {
                params: vec![Type::Integer],
                return_value: Box::new(Type::Integer),
            },
        )
        .unwrap();
    let call = Postfix::Call {
        expr: Box::new(Expression::Id(Id {
            name: "foo".into(),
            info: (),
            position: d,
        })),
        args: vec![],
        info: (),
        position: span(3, 8),
    };
    assert_eq!(
        call.check(&mut ctx),
        Err(TypeCheckError::TypeMismatch(
            TypeMismatch {
                expected: Type::Function {
                    params: vec![],
                    return_value: Box::new(Type::Unknown)
                },
                actual: Type::Function {
                    params: vec![Type::Integer],
                    return_value: Box::new(Type::Integer)
                },
            },
            span(3, 8)
        ))
    );
}

#[test]
fn mismatching_argument_is_reported_at_the_argument() {
    let mut ctx = Context::default();
    ctx.scope
        .add_constant(
            "foo",
            Type::Function {
                params: vec![Type::Integer, Type::Boolean],
                return_value: Box::new(Type::Integer),
            },
        )
        .unwrap();
    let call = Postfix::Call {
        expr: Box::new(Expression::Id(Id {
            name: "foo".into(),
            info: (),
            position: span(0, 3),
        })),
        args: vec![
            Expression::Num(Num::Integer(1, (), span(4, 5))),
            Expression::Num(Num::Integer(2, (), span(7, 8))),
        ],
        info: (),
        position: span(0, 9),
    };
    assert_eq!(
        call.check(&mut ctx),
        Err(TypeCheckError::TypeMismatch(
            TypeMismatch {
                expected: Type::Boolean,
                actual: Type::Integer
            },
            span(7, 8)
        ))
    );
}

#[test]
fn lambda_given_a_non_function_type_is_a_mismatch() {
    let mut lambda = Lambda {
        parameters: vec![],
        expression: Box::new(Expression::Num(Num::Integer(
            1,
            TypeInformation {
                type_id: Some(Type::Integer),
                context: Context::default(),
            },
            span(6, 7),
        ))),
        info: TypeInformation {
            type_id: None,
            context: Context::default(),
        },
        position: span(0, 7),
    };
    assert_eq!(
        lambda.update_type(Type::Integer),
        Err(TypeCheckError::TypeMismatch(
            TypeMismatch {
                expected: Type::Function {
                    params: vec![],
                    return_value: Box::new(Type::Unknown)
                },
                actual: Type::Integer
            },
            span(0, 7)
        ))
    );
    assert_eq!(lambda.info.type_id, None);
}

#[test]
fn lambda_body_of_the_wrong_type_is_a_mismatch() {
    let mut lambda = Lambda {
        parameters: vec![],
        expression: Box::new(Expression::Num(Num::Integer(
            1,
            TypeInformation {
                type_id: Some(Type::Integer),
                context: Context::default(),
            },
            span(6, 7),
        ))),
        info: TypeInformation {
            type_id: None,
            context: Context::default(),
        },
        position: span(0, 7),
    };
    let result = lambda.update_type(Type::Function {
        params: vec![],
        return_value: Box::new(Type::Boolean),
    });
    assert_eq!(
        result,
        Err(TypeCheckError::TypeMismatch(
            TypeMismatch {
                expected: Type::Integer,
                actual: Type::Boolean
            },
            span(6, 7)
        ))
    );
    assert!(lambda
        .update_type(Type::Function {
            params: vec![],
            return_value: Box::new(Type::Integer),
        })
        .is_ok());
}

#[test]
fn known_variable_type_is_not_replaced() {
    let mut ctx = Context::default();
    ctx.scope
        .add_variable("x", Some(Type::Integer), true)
        .unwrap();
    assert_eq!(
        ctx.scope.update_variable("x", Type::Boolean).map_err(|e| match e {
            TypeCheckError::TypeMismatch(m, _) => (m.expected, m.actual),
            _ => (Type::Void, Type::Void),
        }),
        Err((Type::Integer, Type::Boolean))
    );
    assert!(ctx.scope.update_variable("x", Type::Integer).is_ok());
}

#[test]
fn terminal_mismatch_names_both_tokens() {
    let mut tokens: ParseState<Token> = vec![Token::Assign { position: span(0, 1) }].into();
    let error = Comb::LET().parse(&mut tokens).unwrap_err();
    assert_eq!(
        error.message,
        format!(
            "Unexpected {:?} while trying to parse {:?}",
            Token::Assign { position: span(0, 1) },
            why_lib::lexer::Terminal::Let
        )
    );
    assert_eq!(error.position, Some(span(0, 1)));
}

#[test]
fn terminal_at_the_end_reports_eof_at_the_last_token() {
    let mut tokens: ParseState<Token> = vec![Token::Let { position: span(0, 3) }].into();
    tokens.set_index(1);
    let error = Comb::LET().parse(&mut tokens).unwrap_err();
    assert_eq!(error.message, "Unexpected EOF!");
    assert_eq!(error.position, Some(span(0, 3)));
}

#[test]
fn cursor_past_the_end_parses_as_at_the_end() {
    let mut tokens: ParseState<Token> = vec![Token::Let { position: span(0, 3) }].into();
    tokens.set_index(5);
    assert_eq!((!Comb::LET()).parse(&mut tokens), Ok(vec![]));
    assert_eq!(tokens.get_index(), 5);
    assert!(Comb::LET().parse(&mut tokens).is_err());
    assert_eq!(tokens.get_index(), 5);
}

#[test]
fn expect_helpers_name_what_they_expected() {
    let mut tokens: ParseState<Token> = vec![Token::Comma { position: span(2, 3) }].into();
    let error = DirectParser::expect_semicolon(&mut tokens).unwrap_err();
    assert_eq!(
        error.message,
        format!(
            "Expected semicolon, got {:?}",
            Token::Comma { position: span(2, 3) }
        )
    );
    assert_eq!(error.position, Some(span(2, 3)));

    let mut empty: ParseState<Token> = Vec::<Token>::new().into();
    let error = DirectParser::expect_semicolon(&mut empty).unwrap_err();
    assert_eq!(error.message, "Expected semicolon, got EOF");
    assert_eq!(error.position, None);
}

#[test]
fn lambda_with_parameters_takes_a_matching_function_type() {
    let mut lambda = Lambda {
        parameters: vec![why_lib::parser::ast::LambdaParameter {
            name: Id {
                name: "x".into(),
                info: TypeInformation {
                    type_id: None,
                    context: Context::default(),
                },
                position: span(2, 3),
            },
            info: TypeInformation {
                type_id: None,
                context: Context::default(),
            },
            position: span(2, 3),
        }],
        expression: Box::new(Expression::Num(Num::Integer(
            1,
            TypeInformation {
                type_id: Some(Type::Integer),
                context: Context::default(),
            },
            span(8, 9),
        ))),
        info: TypeInformation {
            type_id: None,
            context: Context::default(),
        },
        position: span(0, 9),
    };
    assert!(lambda
        .update_type(Type::Function {
            params: vec![Type::Boolean],
            return_value: Box::new(Type::Integer),
        })
        .is_ok());
    assert_eq!(
        lambda.info.type_id,
        Some(Type::Function {
            params: vec![Type::Boolean],
            return_value: Box::new(Type::Integer),
        })
    );
    assert_eq!(lambda.parameters[0].info.type_id, Some(Type::Boolean));
}

fn identity_lambda() -> Lambda<TypeInformation> {
    let info = || TypeInformation {
        type_id: None,
        context: Context::default(),
    };
    Lambda {
        parameters: vec![why_lib::parser::ast::LambdaParameter {
            name: Id {
                name: "x".into(),
                info: info(),
                position: span(2, 3),
            },
            info: info(),
            position: span(2, 3),
        }],
        expression: Box::new(Expression::Id(Id {
            name: "x".into(),
            info: info(),
            position: span(8, 9),
        })),
        info: info(),
        position: span(0, 9),
    }
}

#[test]
fn lambda_returning_its_parameter_takes_the_parameter_type() {
    let mut lambda = identity_lambda();
    assert!(lambda
        .update_type(Type::Function {
            params: vec![Type::Integer],
            return_value: Box::new(Type::Integer),
        })
        .is_ok());

    let mut lambda = identity_lambda();
    assert_eq!(
        lambda.update_type(Type::Function {
            params: vec![Type::Integer],
            return_value: Box::new(Type::Boolean),
        }),
        Err(TypeCheckError::TypeMismatch(
            TypeMismatch {
                expected: Type::Integer,
                actual: Type::Boolean
            },
            span(8, 9)
        ))
    );
}

#[test]
fn converter_builds_an_operation_with_the_same_operator() {
    let op = BinaryExpression {
        left: Expression::Num(Num::Integer(1, (), span(0, 1))),
        right: Expression::Num(Num::Integer(2, (), span(4, 5))),
        operator: BinaryOperator::Multiply,
        info: (),
        position: span(0, 5),
    };
    let build = op.converter();
    let built = build(
        Expression::Num(Num::Integer(3, (), span(0, 1))),
        Expression::Num(Num::Integer(4, (), span(2, 3))),
        span(0, 3),
    );
    assert_eq!(
        built,
        BinaryExpression {
            left: Expression::Num(Num::Integer(3, (), span(0, 1))),
            right: Expression::Num(Num::Integer(4, (), span(2, 3))),
            operator: BinaryOperator::Multiply,
            info: (),
            position: span(0, 3),
        }
    );
}
