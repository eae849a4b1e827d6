use why_lib::lexer::Span;
use why_lib::parser::ast::{
    Array, Assignment, AstString, BinaryExpression, BinaryOperator, Block, Bool, Character,
    Constant, Declaration, Expression, Function, FunctionParameter, Id, If, Initialisation,
    Instance, LValue, Lambda, LambdaParameter, MethodDeclaration, Num, Postfix, Prefix, Statement,
    StructDeclaration, StructFieldDeclaration, StructFieldInitialisation, StructInitialisation,
    TypeName, WhileLoop,
};
use why_lib::typechecker::check::type_of;
use why_lib::typechecker::context::Context;
use why_lib::typechecker::error::{
    ImmutableReassign, InvalidConstantType, MissingInitialisationType, RedefinedConstant,
    RedefinedFunction, RedefinedMethod, TypeCheckError, TypeMismatch, UndefinedType,
    UndefinedVariable, UnsupportedBinaryOperation,
};
use why_lib::typechecker::scope::Scope;
use why_lib::typechecker::types::Type;
use why_lib::typechecker::TypeInformation;

#[test]
    fn test_primitive_literals() {
        let ctx = Context::default();

        assert_eq!(
            Type::try_from((TypeName::Literal("i64".into(), Span::default()), &ctx)),
            Ok(Type::Integer)
        );

        assert_eq!(
            Type::try_from((TypeName::Literal("f64".into(), Span::default()), &ctx)),
            Ok(Type::FloatingPoint)
        );
    }

#[test]
    fn test_invalid_literal() {
        let ctx = Context::default();
        assert!(Type::try_from((TypeName::Literal("f32".into(), Span::default()), &ctx)).is_err());
        assert!(Type::try_from((TypeName::Literal("i32".into(), Span::default()), &ctx)).is_err());
        assert!(Type::try_from((TypeName::Literal("foo".into(), Span::default()), &ctx)).is_err());
    }

#[test]
    fn test_custom_type() {
        let mut ctx = Context::default();
        ctx.scope
            .add_type("Foo", Type::Array(Box::new(Type::Integer))).unwrap();

        assert_eq!(
            Type::try_from((TypeName::Literal("Foo".into(), Span::default()), &ctx)),
            Ok(Type::Array(Box::new(Type::Integer)))
        );
    }

#[test]
    fn test_reference() {
        let ctx = Context::default();

        assert_eq!(
            Type::try_from((
                TypeName::Reference(
                    Box::new(TypeName::Literal("i64".into(), Span::default())),
                    Span::default()
                ),
                &ctx
            )),
            Ok(Type::Reference(Box::new(Type::Integer)))
        );
    }

#[test]
    fn test_tuple() {
        let ctx = Context::default();

        assert_eq!(
            Type::try_from((
                TypeName::Tuple(
                    vec![
                        TypeName::Literal("i64".into(), Span::default()),
                        TypeName::Literal("f64".into(), Span::default())
                    ],
                    Span::default()
                ),
                &ctx
            )),
            Ok(Type::Tuple(vec![Type::Integer, Type::FloatingPoint]))
        )
    }

#[test]
    fn test_array() {
        let ctx = Context::default();

        assert_eq!(
            Type::try_from((
                TypeName::Array(
                    Box::new(TypeName::Literal("i64".into(), Span::default())),
                    Span::default()
                ),
                &ctx
            )),
            Ok(Type::Array(Box::new(Type::Integer)))
        )
    }

#[test]
    fn test_function() {
        let ctx = Context::default();

        let func = TypeName::Fn {
            params: vec![
                TypeName::Literal("i64".into(), Span::default()),
                TypeName::Literal("f64".into(), Span::default()),
            ],
            return_type: Box::new(TypeName::Literal("f64".into(), Span::default())),
            position: Span::default(),
        };

        assert_eq!(
            Type::try_from((func, &ctx)),
            Ok(Type::Function {
                params: vec![Type::Integer, Type::FloatingPoint],
                return_value: Box::new(Type::FloatingPoint)
            })
        )
    }

#[test]
    fn test_new() {
        let scope = Scope::new();
        assert_eq!(scope.depth(), 1);
    }

#[test]
    fn scope_test_add_variable() {
        let mut scope = Scope::new();

        let expression = Expression::Id(Id {
            name: "foo".into(),
            info: TypeInformation {
                type_id: Some(Type::Integer),
                context: Context::default(),
            },
            position: Span::default(),
        });

        scope
            .add_variable("foo", type_of(&expression), false)
            .expect("something went wrong");

        assert_eq!(
            scope.get_variable("foo"),
            Some(Some(Type::Integer))
        );
    }

#[test]
    fn test_add_override() {
        let mut scope = Scope::new();

        let mut expression = Expression::Id(Id {
            name: "foo".into(),
            info: TypeInformation {
                type_id: Some(Type::Integer),
                context: Context::default(),
            },
            position: Span::default(),
        });

        scope
            .add_variable("foo", type_of(&expression), false)
            .expect("something went wrong");

        if let Expression::Id(id) = &mut expression {
            id.info.type_id = Some(Type::Boolean);
        }

        scope
            .add_variable("foo", type_of(&expression), false)
            .expect("something went wrong");

        assert_eq!(
            scope.get_variable("foo"),
            Some(Some(Type::Boolean))
        );
    }

#[test]
    fn test_enter_scope() {
        let mut scope = Scope::new();

        let expression = Expression::Id(Id {
            name: "foo".into(),
            info: TypeInformation {
                type_id: Some(Type::Integer),
                context: Context::default(),
            },
            position: Span::default(),
        });

        scope.enter_scope();
        assert_eq!(scope.depth(), 2);

        scope
            .add_variable("foo", type_of(&expression), false)
            .expect("something went wrong");

        assert_eq!(
            scope.get_variable("foo"),
            Some(Some(Type::Integer))
        );

        scope.exit_scope();
        assert!(scope.get_variable("foo").is_none())
    }

#[test]
    fn test_empty_array_literal() {
        let mut ctx = Context::default();

        let arr = Array::Literal {
            values: vec![],
            info: (),
            position: Span::default(),
        };

        let arr = arr.check(&mut ctx).unwrap();

        assert_eq!(arr.get_info().type_id, None);
    }

#[test]
    fn test_single_element_array_literal() {
        let mut ctx = Context::default();

        let arr = Array::Literal {
            values: vec![Expression::Num(Num::Integer(42, (), Span::default()))],
            info: (),
            position: Span::default(),
        };

        let arr = arr.check(&mut ctx).unwrap();

        assert_eq!(
            arr.get_info().type_id,
            Some(Type::Array(Box::new(Type::Integer)))
        );
    }

#[test]
    fn test_multiple_element_array_literal_match() {
        let mut ctx = Context::default();

        let arr = Array::Literal {
            values: vec![
                Expression::Num(Num::FloatingPoint("42.0".into(), (), Span::default())),
                Expression::Num(Num::FloatingPoint("1337.0".into(), (), Span::default())),
            ],
            info: (),
            position: Span::default(),
        };

        let arr = arr.check(&mut ctx).unwrap();

        assert_eq!(
            arr.get_info().type_id,
            Some(Type::Array(Box::new(
                Type::FloatingPoint
            )))
        );
    }

#[test]
    fn test_multiple_element_array_literal_mismatch() {
        let mut ctx = Context::default();

        let arr = Array::Literal {
            values: vec![
                Expression::Num(Num::Integer(42, (), Span::default())),
                Expression::Num(Num::FloatingPoint("1337.0".into(), (), Span::default())),
            ],
            info: (),
            position: Span::default(),
        };

        let res = arr.check(&mut ctx);

        assert_eq!(
            res,
            Err(TypeCheckError::TypeMismatch(
                TypeMismatch {
                    expected: Type::Integer,
                    actual: Type::FloatingPoint
                },
                Span::default()
            ))
        );
    }

#[test]
    fn test_simple_default_array() {
        let mut ctx = Context::default();

        let arr = Array::Default {
            initial_value: Box::new(Expression::Num(Num::Integer(42, (), Span::default()))),
            length: Num::Integer(10, (), Span::default()),
            info: (),
            position: Span::default(),
        };

        let arr = arr.check(&mut ctx).unwrap();

        assert_eq!(
            arr.get_info().type_id,
            Some(Type::Array(Box::new(Type::Integer)))
        );
    }

#[test]
    fn test_simple_addition() {
        let mut ctx = Context::default();
        let exp = BinaryExpression {
            left: Expression::Num(Num::Integer(42, (), Span::default())),
            right: Expression::Num(Num::Integer(1337, (), Span::default())),
            operator: BinaryOperator::Add,
            info: (),
            position: Span::default(),
        };

        let exp = exp.check(&mut ctx).unwrap();

        assert_eq!(exp.info.type_id, Some(Type::Integer));
    }

#[test]
    fn test_simple_equality() {
        let mut ctx = Context::default();
        let exp = BinaryExpression {
            left: Expression::Num(Num::Integer(42, (), Span::default())),
            right: Expression::Num(Num::Integer(1337, (), Span::default())),
            operator: BinaryOperator::Equals,
            info: (),
            position: Span::default(),
        };

        let exp = exp.check(&mut ctx).unwrap();

        assert_eq!(exp.info.type_id, Some(Type::Boolean));
    }

#[test]
    fn test_addition_with_incompatible_types() {
        let mut ctx = Context::default();
        let exp = BinaryExpression {
            left: Expression::Num(Num::Integer(42, (), Span::default())),
            right: Expression::Num(Num::FloatingPoint("1337.0".into(), (), Span::default())),
            operator: BinaryOperator::Add,
            info: (),
            position: Span::default(),
        };

        let res = exp.check(&mut ctx);

        assert_eq!(
            res,
            Err(TypeCheckError::UnsupportedBinaryOperation(
                UnsupportedBinaryOperation {
                    operands: (Type::Integer, Type::FloatingPoint)
                },
                Span::default()
            ))
        );
    }

#[test]
    fn typed_block_test_empty_block() {
        let mut ctx = Context::default();

        let block = Block {
            statements: vec![],
            info: (),
            position: Span::default(),
        };

        let block = block.check(&mut ctx).unwrap();

        assert_eq!(block.info.type_id, Some(Type::Void));
    }

#[test]
    fn test_return_type_of_last_statement() {
        let mut ctx = Context::default();

        let block = Block {
            statements: vec![Statement::YieldingExpression(Expression::Num(
                Num::Integer(42, (), Span::default()),
            ))],
            info: (),
            position: Span::default(),
        };

        let block = block.check(&mut ctx).unwrap();

        assert_eq!(
            block.info.type_id,
            Some(Type::Integer)
        );
    }

#[test]
    fn test_character_type_check() {
        let mut ctx = Context::default();

        let character = Character {
            character: 'a',
            info: (),
            position: Span::default(),
        };

        let result = character.check(&mut ctx);

        assert!(result.is_ok());
        assert_eq!(
            result,
            Ok(Character {
                character: 'a',
                info: TypeInformation {
                    type_id: Some(Type::Character),
                    context: ctx.clone(),
                },
                position: Span::default(),
            })
        )
    }

#[test]
    fn test_parameter_type_insertion() {
        let mut ctx = Context::default();

        let param = FunctionParameter {
            name: Id {
                name: "foo".into(),
                info: (),
                position: Span::default(),
            },
            type_annotation: TypeName::Literal("i64".into(), Span::default()),
            info: (),
            position: Span::default(),
        };

        let param = param.check(&mut ctx).unwrap();

        assert_eq!(
            param.info,
            TypeInformation {
                type_id: Some(Type::Integer),
                context: Context::default(),
            }
        );

        assert_eq!(
            param.name.info,
            TypeInformation {
                type_id: Some(Type::Integer),
                context: Context::default(),
            }
        );

        assert_eq!(
            ctx.scope.resolve_name("foo"),
            Some(Some(Type::Integer))
        );
    }

#[test]
    fn test_function_type_insertion() {
        let mut ctx = Context::default();

        let func = Function {
            id: Id {
                name: "foo".into(),
                info: (),
                position: Span::default(),
            },
            parameters: vec![FunctionParameter {
                name: Id {
                    name: "bar".into(),
                    info: (),
                    position: Span::default(),
                },
                type_annotation: TypeName::Literal("f64".into(), Span::default()),
                info: (),
                position: Span::default(),
            }],
            body: Block {
                statements: vec![Statement::YieldingExpression(Expression::Num(
                    Num::Integer(42, (), Span::default()),
                ))],
                info: (),
                position: Span::default(),
            },
            return_type: TypeName::Literal("i64".into(), Span::default()),
            info: (),
            position: Span::default(),
        };

        let func = func.check(&mut ctx).unwrap();

        assert_eq!(
            func.id,
            Id {
                name: "foo".into(),
                info: TypeInformation {
                    type_id: Some(Type::Function {
                        params: vec![Type::FloatingPoint],
                        return_value: Box::new(Type::Integer)
                    }),
                    context: Context::default(),
                },
                position: Span::default()
            }
        );

        assert_eq!(
            func.info,
            TypeInformation {
                type_id: Some(Type::Function {
                    params: vec![Type::FloatingPoint],
                    return_value: Box::new(Type::Integer)
                }),
                context: Context::default(),
            }
        );
    }

#[test]
    fn test_function_add_to_scope() {
        let mut ctx = Context::default();

        let func = Function {
            id: Id {
                name: "foo".into(),
                info: (),
                position: Span::default(),
            },
            parameters: vec![FunctionParameter {
                name: Id {
                    name: "bar".into(),
                    info: (),
                    position: Span::default(),
                },
                type_annotation: TypeName::Literal("f64".into(), Span::default()),
                info: (),
                position: Span::default(),
            }],
            body: Block {
                statements: vec![Statement::YieldingExpression(Expression::Num(
                    Num::Integer(42, (), Span::default()),
                ))],
                info: (),
                position: Span::default(),
            },
            return_type: TypeName::Literal("i64".into(), Span::default()),
            info: (),
            position: Span::default(),
        };

        func.shallow_check(&mut ctx).unwrap();

        let type_id = ctx.scope.resolve_name("foo");

        assert_eq!(
            type_id,
            Some(Some(Type::Function {
                params: vec![Type::FloatingPoint],
                return_value: Box::new(Type::Integer)
            }))
        );
    }

#[test]
    fn test_function_return_type_mismatch() {
        let mut ctx = Context::default();

        let func = Function {
            id: Id {
                name: "foo".into(),
                info: (),
                position: Span::default(),
            },
            parameters: vec![],
            body: Block {
                statements: vec![Statement::YieldingExpression(Expression::Num(
                    Num::Integer(42, (), Span::default()),
                ))],
                info: (),
                position: Span::default(),
            },
            return_type: TypeName::Literal("void".into(), Span::default()),
            info: (),
            position: Span::default(),
        };

        let res = func.check(&mut ctx);

        assert_eq!(
            res,
            Err(TypeCheckError::TypeMismatch(
                TypeMismatch {
                    expected: Type::Void,
                    actual: Type::Integer
                },
                Span::default()
            ))
        );
    }

#[test]
    fn test_simple_add_function() {
        let mut ctx = Context::default();

        let func = Function {
            id: Id {
                name: "foo".into(),
                info: (),
                position: Span::default(),
            },
            parameters: vec![
                FunctionParameter {
                    name: Id {
                        name: "x".into(),
                        position: Span::default(),
                        info: (),
                    },
                    type_annotation: TypeName::Literal("i64".into(), Span::default()),
                    info: (),
                    position: Span::default(),
                },
                FunctionParameter {
                    name: Id {
                        name: "y".into(),
                        position: Span::default(),
                        info: (),
                    },
                    type_annotation: TypeName::Literal("i64".into(), Span::default()),
                    info: (),
                    position: Span::default(),
                },
            ],
            body: Block {
                statements: vec![Statement::YieldingExpression(Expression::Binary(Box::new(
                    BinaryExpression {
                        left: Expression::Id(Id {
                            name: "x".into(),
                            position: Span::default(),
                            info: (),
                        }),
                        right: Expression::Id(Id {
                            name: "y".into(),
                            position: Span::default(),
                            info: (),
                        }),
                        operator: BinaryOperator::Add,
                        position: Span::default(),
                        info: (),
                    },
                )))],
                info: (),
                position: Span::default(),
            },
            return_type: TypeName::Literal("i64".into(), Span::default()),
            info: (),
            position: Span::default(),
        };

        func.check(&mut ctx).unwrap();
    }

#[test]
    fn test_no_member_modification() {
        let mut ctx = Context::default();
        ctx.scope
            .add_variable(
                "foo", type_of(&Expression::Id(Id {
                    name: "foo".into(),
                    info: TypeInformation {
                        type_id: Some(Type::Integer),
                        context: Context::default(),
                    },
                    position: Span::default(),
                })),
                false)
            .expect("something went wrong");

        let id = Id {
            name: "foo".into(),
            info: (),
            position: Span::default(),
        };

        let id = id.check(&mut ctx).unwrap();

        assert_eq!(id.name, "foo".to_string());
    }

#[test]
    fn id_test_correct_type_inference() {
        let mut ctx = Context::default();
        ctx.scope
            .add_variable(
                "foo", type_of(&Expression::Id(Id {
                    name: "foo".into(),
                    info: TypeInformation {
                        type_id: Some(Type::Integer),
                        context: Context::default(),
                    },
                    position: Span::default(),
                })),
                false)
            .expect("something went wrong");

        let id = Id {
            name: "foo".into(),
            info: (),
            position: Span::default(),
        };

        let id = id.check(&mut ctx).unwrap();

        assert_eq!(
            id.info,
            TypeInformation {
                type_id: Some(Type::Integer),
                context: Context::default(),
            }
        );
    }

#[test]
    fn test_error_on_undefined() {
        let mut ctx = Context::default();

        let id = Id {
            name: "foo".into(),
            info: (),
            position: Span::default(),
        };

        let res = id.check(&mut ctx);

        assert_eq!(
            res,
            Err(TypeCheckError::UndefinedVariable(
                UndefinedVariable {
                    variable_name: "foo".into()
                },
                Span::default()
            ))
        );
    }

#[test]
    fn test_retrival_of_constant() {
        let mut ctx = Context::default();
        ctx.scope.add_constant("foo", Type::Integer).unwrap();

        let id = Id {
            name: "foo".into(),
            info: (),
            position: Span::default(),
        };

        let id = id.check(&mut ctx).unwrap();

        assert_eq!(id.info.type_id, Some(Type::Integer));
    }

#[test]
    fn test_empty_if() {
        let mut ctx = Context::default();
        ctx.scope.add_variable(
            "foo", type_of(&Expression::Id(Id {
                name: "foo".into(),
                info: TypeInformation {
                    type_id: Some(Type::Boolean),
                    context: ctx.clone(),
                },
                position: Span::default(),
            })),
            false).unwrap();

        let if_exp = If {
            condition: Box::new(Expression::Id(Id {
                name: "foo".into(),
                info: (),
                position: Span::default(),
            })),
            then_block: Block { statements: vec![], info: (), position: Span::default() },
            else_block: Block { statements: vec![], info: (), position: Span::default() },
            info: (),
            position: Span::default(),
        };

        let if_exp = if_exp.check(&mut ctx).unwrap();

        assert_eq!(if_exp.info.type_id, Some(Type::Void));
    }

#[test]
    fn test_error_on_non_boolean_condition() {
        let mut ctx = Context::default();
        ctx.scope.add_variable(
            "foo", type_of(&Expression::Id(Id {
                name: "foo".into(),
                info: TypeInformation {
                    type_id: Some(Type::Integer),
                    context: ctx.clone(),
                },
                position: Span::default(),
            })),
            false).unwrap();

        let if_exp = If {
            condition: Box::new(Expression::Id(Id {
                name: "foo".into(),
                info: (),
                position: Span::default(),
            })),
            then_block: Block { statements: vec![], info: (), position: Span::default() },
            else_block: Block { statements: vec![], info: (), position: Span::default() },
            info: (),
            position: Span::default(),
        };

        let result = if_exp.check(&mut ctx);

        assert_eq!(
            result,
            Err(TypeCheckError::TypeMismatch(
                TypeMismatch {
                    expected: Type::Boolean,
                    actual: Type::Integer
                },
                Span::default()
            ))
        );
    }

#[test]
    fn test_error_on_if_else_missmatch() {
        let mut ctx = Context::default();
        ctx.scope.add_variable(
            "foo", type_of(&Expression::Id(Id {
                name: "foo".into(),
                info: TypeInformation {
                    type_id: Some(Type::Boolean),
                    context: ctx.clone(),
                },
                position: Span::default(),
            })),
            false).unwrap();
        ctx.scope.add_variable(
            "bar", type_of(&Expression::Id(Id {
                name: "bar".into(),
                info: TypeInformation {
                    type_id: Some(Type::FloatingPoint),
                    context: ctx.clone(),
                },
                position: Span::default(),
            })),
            false).unwrap();
        ctx.scope.add_variable(
            "baz", type_of(&Expression::Id(Id {
                name: "baz".into(),
                info: TypeInformation {
                    type_id: Some(Type::Integer),
                    context: ctx.clone(),
                },
                position: Span::default(),
            })),
            false).unwrap();

        let if_exp = If {
            condition: Box::new(Expression::Id(Id {
                name: "foo".into(),
                info: (),
                position: Span::default(),
            })),
            then_block: Block { statements: vec![Statement::Expression(Expression::Id(Id {
                name: "bar".into(),
                info: (),
                position: Span::default(),
            }))], info: (), position: Span::default() },
            else_block: Block { statements: vec![Statement::Expression(Expression::Id(Id {
                name: "baz".into(),
                info: (),
                position: Span::default(),
            }))], info: (), position: Span::default() },
            info: (),
            position: Span::default(),
        };

        let result = if_exp.check(&mut ctx);

        assert_eq!(
            result,
            Err(TypeCheckError::TypeMismatch(
                TypeMismatch {
                    expected: Type::FloatingPoint,
                    actual: Type::Integer
                },
                Span::default()
            ))
        );
    }

#[test]
    fn test_void_on_empty_else() {
        let mut ctx = Context::default();
        ctx.scope.add_variable(
            "foo", type_of(&Expression::Id(Id {
                name: "foo".into(),
                info: TypeInformation {
                    type_id: Some(Type::Boolean),
                    context: ctx.clone(),
                },
                position: Span::default(),
            })),
            false).unwrap();
        ctx.scope.add_variable(
            "bar", type_of(&Expression::Id(Id {
                name: "bar".into(),
                info: TypeInformation {
                    type_id: Some(Type::FloatingPoint),
                    context: ctx.clone(),
                },
                position: Span::default(),
            })),
            false).unwrap();

        let if_exp = If {
            condition: Box::new(Expression::Id(Id {
                name: "foo".into(),
                info: (),
                position: Span::default(),
            })),
            then_block: Block { statements: vec![Statement::Expression(Expression::Id(Id {
                name: "bar".into(),
                info: (),
                position: Span::default(),
            }))], info: (), position: Span::default() },
            else_block: Block { statements: vec![], info: (), position: Span::default() },
            info: (),
            position: Span::default(),
        };

        let result = if_exp.check(&mut ctx).unwrap();

        assert_eq!(result.info.type_id, Some(Type::Void));
    }

#[test]
    fn test_parameter_type_inference() {
        let mut ctx = Context::default();

        let param = LambdaParameter {
            name: Id {
                name: "foo".into(),
                info: (),
                position: Span::default(),
            },
            info: (),
            position: Span::default(),
        };

        let param = param.check(&mut ctx).unwrap();

        assert_eq!(
            param,
            LambdaParameter {
                name: Id {
                    name: "foo".into(),
                    info: TypeInformation {
                        type_id: None,
                        context: Context::default(),
                    },
                    position: Span::default(),
                },
                info: TypeInformation {
                    type_id: None,
                    context: Context::default(),
                },
                position: Span::default(),
            }
        );
    }

#[test]
    fn test_parameter_in_scope_insertion() {
        let mut ctx = Context::default();

        let param = LambdaParameter {
            name: Id {
                name: "foo".into(),
                info: (),
                position: Span::default(),
            },
            info: (),
            position: Span::default(),
        };

        param.check(&mut ctx).unwrap();

        assert_eq!(
            ctx.scope.resolve_name("foo"),
            Some(None)
        );
    }

#[test]
    fn test_lambda_type_inference() {
        let mut ctx = Context::default();

        let lambda = Lambda {
            parameters: vec![],
            expression: Box::new(Expression::Num(Num::Integer(42, (), Span::default()))),
            info: (),
            position: Span::default(),
        };

        let lambda = lambda.check(&mut ctx).unwrap();

        assert_eq!(
            lambda,
            Lambda {
                parameters: vec![],
                expression: Box::new(Expression::Num(Num::Integer(
                    42,
                    TypeInformation {
                        type_id: Some(Type::Integer),
                        context: Context::default(),
                    },
                    Span::default()
                ))),
                info: TypeInformation {
                    type_id: Some(Type::Function {
                        params: vec![],
                        return_value: Box::new(Type::Integer)
                    }),
                    context: Context::default(),
                },
                position: Span::default(),
            }
        );
    }

#[test]
    fn test_check_integer() {
        let Num::Integer(num, info, ..) =
            Num::Integer(42, (), Span::default()).check(&mut Context::default()).unwrap()
        else {
            unreachable!()
        };

        assert_eq!(num, 42);
        assert_eq!(info.type_id, Some(Type::Integer));
    }

#[test]
    fn test_check_floatingpoint() {
        let Num::FloatingPoint(num, info, ..) =
            Num::FloatingPoint("42.0".into(), (), Span::default()).check(&mut Context::default()).unwrap()
        else {
            unreachable!()
        };

        assert_eq!(num.parse::<f64>().unwrap(), 42.0);
        assert_eq!(
            info.type_id,
            Some(Type::FloatingPoint)
        );
    }

#[test]
    fn test_simple_call() {
        let mut ctx = Context::default();

        ctx.scope.add_constant(
            "foo",
            Type::Function {
                params: vec![],
                return_value: Box::new(Type::Integer),
            },
        ).unwrap();

        let call = Postfix::Call {
            expr: Box::new(Expression::Id(Id {
                name: "foo".into(),
                info: (),
                position: Span::default(),
            })),
            args: vec![],
            info: (),
            position: Span::default(),
        };

        let call = call.check(&mut ctx).unwrap();

        assert_eq!(
            call.get_info().type_id,
            Some(Type::Integer)
        );
    }

#[test]
    fn test_complex_call() {
        let mut ctx = Context::default();

        ctx.scope.add_constant(
            "foo",
            Type::Function {
                params: vec![Type::FloatingPoint, Type::Integer],
                return_value: Box::new(Type::Integer),
            },
        ).unwrap();

        ctx.scope.add_constant("bar", Type::FloatingPoint).unwrap();

        let call = Postfix::Call {
            expr: Box::new(Expression::Id(Id {
                name: "foo".into(),
                info: (),
                position: Span::default(),
            })),
            args: vec![
                Expression::Id(Id {
                    name: "bar".into(),
                    position: Span::default(),
                    info: (),
                }),
                Expression::Num(Num::Integer(42, (), Span::default())),
            ],
            info: (),
            position: Span::default(),
        };

        let call = call.check(&mut ctx).unwrap();

        assert_eq!(
            call.get_info().type_id,
            Some(Type::Integer)
        );
    }

#[test]
    fn test_call_mismatch() {
        let mut ctx = Context::default();

        ctx.scope.add_constant(
            "foo",
            Type::Function {
                params: vec![Type::Integer, Type::FloatingPoint],
                return_value: Box::new(Type::Integer),
            },
        ).unwrap();

        ctx.scope.add_constant("bar", Type::FloatingPoint).unwrap();

        let call = Postfix::Call {
            expr: Box::new(Expression::Id(Id {
                name: "foo".into(),
                info: (),
                position: Span::default(),
            })),
            args: vec![
                Expression::Id(Id {
                    name: "bar".into(),
                    position: Span::default(),
                    info: (),
                }),
                Expression::Num(Num::Integer(42, (), Span::default())),
            ],
            info: (),
            position: Span::default(),
        };

        let result = call.check(&mut ctx);

        assert_eq!(
            result,
            Err(TypeCheckError::TypeMismatch(
                TypeMismatch {
                    expected: Type::Integer,
                    actual: Type::FloatingPoint
                },
                Span::default()
            ))
        );
    }

#[test]
    fn test_simple_index() {
        let mut ctx = Context::default();

        ctx.scope
            .add_constant("foo", Type::Array(Box::new(Type::Integer))).unwrap();

        let index = Postfix::Index {
            expr: Box::new(Expression::Id(Id {
                name: "foo".into(),
                position: Span::default(),
                info: (),
            })),
            index: Box::new(Expression::Num(Num::Integer(10, (), Span::default()))),
            info: (),
            position: Span::default(),
        };

        let index = index.check(&mut ctx).unwrap();

        assert_eq!(
            index.get_info().type_id,
            Some(Type::Integer)
        );
    }

#[test]
    fn test_call_type_mismatch() {
        let mut ctx = Context::default();

        ctx.scope
            .add_constant("foo", Type::Array(Box::new(Type::Integer))).unwrap();

        ctx.scope
            .add_constant("bar", Type::Array(Box::new(Type::FloatingPoint))).unwrap();

        let index = Postfix::Index {
            expr: Box::new(Expression::Id(Id {
                name: "foo".into(),
                position: Span::default(),
                info: (),
            })),
            index: Box::new(Expression::Id(Id {
                name: "bar".into(),
                position: Span::default(),
                info: (),
            })),
            info: (),
            position: Span::default(),
        };

        let res = index.check(&mut ctx);

        assert_eq!(
            res,
            Err(TypeCheckError::TypeMismatch(
                TypeMismatch {
                    expected: Type::Integer,
                    actual: Type::Array(Box::new(Type::FloatingPoint))
                },
                Span::default()
            ))
        );
    }

#[test]
    fn test_simple_property_access() {
        let mut ctx = Context::default();

        ctx.scope.add_constant(
            "foo",
            Type::Struct("Foo".into(), vec![("bar".into(), Type::Integer)]),
        ).unwrap();

        let access = Postfix::PropertyAccess {
            expr: Box::new(Expression::Id(Id {
                name: "foo".into(),
                position: Span::default(),
                info: (),
            })),
            property: Id {
                name: "bar".into(),
                position: Span::default(),
                info: (),
            },
            info: (),
            position: Span::default(),
        };

        let access = access.check(&mut ctx).unwrap();

        assert_eq!(
            access.get_info().type_id,
            Some(Type::Integer)
        );
    }

#[test]
    fn test_complex_property_access() {
        let mut ctx = Context::default();

        ctx.scope.add_constant(
            "foo",
            Type::Struct(
                "Foo".into(),
                vec![(
                    "bar".into(),
                    Type::Struct("Bar".into(), vec![("baz".into(), Type::FloatingPoint)]),
                )],
            ),
        ).unwrap();

        let access = Postfix::PropertyAccess {
            expr: Box::new(Expression::Postfix(Postfix::PropertyAccess {
                expr: Box::new(Expression::Id(Id {
                    name: "foo".into(),
                    position: Span::default(),
                    info: (),
                })),
                property: Id {
                    name: "bar".into(),
                    position: Span::default(),
                    info: (),
                },
                info: (),
                position: Span::default(),
            })),
            property: Id {
                name: "baz".into(),
                position: Span::default(),
                info: (),
            },
            info: (),
            position: Span::default(),
        };

        let access = access.check(&mut ctx).unwrap();

        assert_eq!(
            access.get_info().type_id,
            Some(Type::FloatingPoint)
        );
    }

#[test]
    fn test_missing_property_access() {
        let mut ctx = Context::default();

        ctx.scope.add_constant(
            "foo",
            Type::Struct("Foo".into(), vec![("bar".into(), Type::Integer)]),
        ).unwrap();

        let access = Postfix::PropertyAccess {
            expr: Box::new(Expression::Id(Id {
                name: "foo".into(),
                position: Span::default(),
                info: (),
            })),
            property: Id {
                name: "baz".into(),
                position: Span::default(),
                info: (),
            },
            info: (),
            position: Span::default(),
        };

        let res = access.check(&mut ctx);

        assert_eq!(
            res,
            Err(TypeCheckError::UndefinedVariable(
                UndefinedVariable {
                    variable_name: "baz".into(),
                },
                Span::default()
            ))
        );
    }

#[test]
    fn test_simple_prefix_minus() {
        let mut ctx = Context::default();

        let pref = Prefix::Minus {
            expr: Box::new(Expression::Num(Num::Integer(42, (), Span::default()))),
            position: Span::default(),
        };

        let pref = pref.check(&mut ctx).unwrap();

        assert_eq!(
            pref.get_info().type_id,
            Some(Type::Integer)
        );
    }

#[test]
    fn test_simple_prefix_negation() {
        let mut ctx = Context::default();

        let pref = Prefix::Negation {
            expr: Box::new(Expression::Binary(Box::new(BinaryExpression {
                left: Expression::Num(Num::Integer(42, (), Span::default())),
                right: Expression::Num(Num::Integer(1337, (), Span::default())),
                operator: BinaryOperator::LessThan,
                info: (),
                position: Span::default(),
            }))),
            position: Span::default(),
        };

        let pref = pref.check(&mut ctx).unwrap();

        assert_eq!(
            pref.get_info().type_id,
            Some(Type::Boolean)
        );
    }

#[test]
    fn test_error_in_non_numeric_minus() {
        let mut ctx = Context::default();

        let pref = Prefix::Minus {
            expr: Box::new(Expression::Binary(Box::new(BinaryExpression {
                left: Expression::Num(Num::Integer(42, (), Span::default())),
                right: Expression::Num(Num::Integer(1337, (), Span::default())),
                operator: BinaryOperator::LessThan,
                info: (),
                position: Span::default(),
            }))),
            position: Span::default(),
        };

        let res = pref.check(&mut ctx);

        assert_eq!(
            res,
            Err(TypeCheckError::TypeMismatch(
                TypeMismatch {
                    expected: Type::Integer,
                    actual: Type::Boolean
                },
                Span::default()
            ))
        );
    }

#[test]
    fn test_error_in_non_boolean_negation() {
        let mut ctx = Context::default();

        let pref = Prefix::Negation {
            expr: Box::new(Expression::Num(Num::Integer(42, (), Span::default()))),
            position: Span::default(),
        };

        let res = pref.check(&mut ctx);

        assert_eq!(
            res,
            Err(TypeCheckError::TypeMismatch(
                TypeMismatch {
                    expected: Type::Boolean,
                    actual: Type::Integer
                },
                Span::default()
            ))
        );
    }

#[test]
    fn test_empty_struct_initialisation() {
        let mut ctx = Context::default();

        let dec = StructDeclaration {
            id: Id {
                name: "BarStruct".into(),
                info: (),
                position: Span::default(),
            },
            fields: vec![],
            info: (),
            position: Span::default(),
        };

        dec.shallow_check(&mut ctx).unwrap();
        dec.check(&mut ctx).unwrap();

        let init = StructInitialisation {
            id: Id {
                name: "BarStruct".into(),
                info: (),
                position: Span::default(),
            },
            fields: vec![],
            info: (),
            position: Span::default(),
        };

        let init = init.check(&mut ctx).unwrap();

        assert_eq!(
            init.info.type_id,
            Some(Type::Struct("BarStruct".into(), vec![]))
        );
    }

#[test]
    fn test_filled_struct_initialisation() {
        let mut ctx = Context::default();

        let dec = StructDeclaration {
            id: Id {
                name: "Foo".into(),
                info: (),
                position: Span::default(),
            },
            fields: vec![
                StructFieldDeclaration {
                    name: Id {
                        name: "bar".into(),
                        info: (),
                        position: Span::default(),
                    },
                    type_annotation: TypeName::Literal("i64".into(), Span::default()),
                    info: (),
                    position: Span::default(),
                },
                StructFieldDeclaration {
                    name: Id {
                        name: "baz".into(),
                        info: (),
                        position: Span::default(),
                    },
                    type_annotation: TypeName::Literal("f64".into(), Span::default()),
                    info: (),
                    position: Span::default(),
                },
            ],
            info: (),
            position: Span::default(),
        };

        dec.shallow_check(&mut ctx).unwrap();
        dec.check(&mut ctx).unwrap();

        let init = StructInitialisation {
            id: Id {
                name: "Foo".into(),
                info: (),
                position: Span::default(),
            },
            fields: vec![
                StructFieldInitialisation {
                    name: Id {
                        name: "bar".into(),
                        info: (),
                        position: Span::default(),
                    },
                    value: Expression::Num(Num::Integer(42, (), Span::default())),
                    info: (),
                    position: Span::default(),
                },
                StructFieldInitialisation {
                    name: Id {
                        name: "baz".into(),
                        info: (),
                        position: Span::default(),
                    },
                    value: Expression::Num(Num::FloatingPoint("133.7".into(), (), Span::default())),
                    info: (),
                    position: Span::default(),
                },
            ],
            info: (),
            position: Span::default(),
        };

        let init = init.check(&mut ctx).unwrap();

        assert_eq!(
            init.info.type_id,
            Some(Type::Struct(
                "Foo".into(),
                vec![
                    ("bar".into(), Type::Integer),
                    ("baz".into(), Type::FloatingPoint)
                ]
            ))
        );

        assert_eq!(
            init.fields[0].info.type_id,
            Some(Type::Integer)
        );

        assert_eq!(
            init.fields[1].info.type_id,
            Some(Type::FloatingPoint)
        );
    }

#[test]
    fn test_filled_struct_initialisation_swapped_fields() {
        let mut ctx = Context::default();

        let dec = StructDeclaration {
            id: Id {
                name: "Foo".into(),
                info: (),
                position: Span::default(),
            },
            fields: vec![
                StructFieldDeclaration {
                    name: Id {
                        name: "bar".into(),
                        info: (),
                        position: Span::default(),
                    },
                    type_annotation: TypeName::Literal("i64".into(), Span::default()),
                    info: (),
                    position: Span::default(),
                },
                StructFieldDeclaration {
                    name: Id {
                        name: "baz".into(),
                        info: (),
                        position: Span::default(),
                    },
                    type_annotation: TypeName::Literal("f64".into(), Span::default()),
                    info: (),
                    position: Span::default(),
                },
            ],
            info: (),
            position: Span::default(),
        };

        dec.shallow_check(&mut ctx).unwrap();
        dec.check(&mut ctx).unwrap();

        let init = StructInitialisation {
            id: Id {
                name: "Foo".into(),
                info: (),
                position: Span::default(),
            },
            fields: vec![
                StructFieldInitialisation {
                    name: Id {
                        name: "baz".into(),
                        info: (),
                        position: Span::default(),
                    },
                    value: Expression::Num(Num::FloatingPoint("133.7".into(), (), Span::default())),
                    info: (),
                    position: Span::default(),
                },
                StructFieldInitialisation {
                    name: Id {
                        name: "bar".into(),
                        info: (),
                        position: Span::default(),
                    },
                    value: Expression::Num(Num::Integer(42, (), Span::default())),
                    info: (),
                    position: Span::default(),
                },
            ],
            info: (),
            position: Span::default(),
        };

        let init = init.check(&mut ctx).unwrap();

        assert_eq!(
            init.info.type_id,
            Some(Type::Struct(
                "Foo".into(),
                vec![
                    ("bar".into(), Type::Integer),
                    ("baz".into(), Type::FloatingPoint)
                ]
            ))
        );

        assert_eq!(
            init.fields[0].info.type_id,
            Some(Type::Integer)
        );

        assert_eq!(
            init.fields[1].info.type_id,
            Some(Type::FloatingPoint)
        );
    }

#[test]
    fn test_simple_reassign() {
        let mut ctx = Context::default();
        ctx.scope.add_variable(
            "foo", type_of(&Expression::Id(Id {
                name: "foo".into(),
                info: TypeInformation {
                    type_id: Some(Type::Integer),
                    context: ctx.clone(),
                },
                position: Span::default(),
            })),
            true).unwrap();

        let ass = Assignment {
            lvalue: LValue::Id(Id {
                name: "foo".into(),
                info: (),
                position: Span::default(),
            }),
            info: (),
            rvalue: Expression::Num(Num::Integer(42, (), Span::default())),
            position: Span::default(),
        };

        ass.check(&mut ctx).unwrap();
    }

#[test]
    fn test_assign_type_missmatch() {
        let mut ctx = Context::default();
        ctx.scope.add_variable(
            "foo", type_of(&Expression::Id(Id {
                name: "foo".into(),
                info: TypeInformation {
                    type_id: Some(Type::FloatingPoint),
                    context: ctx.clone(),
                },
                position: Span::default(),
            })),
            true).unwrap();

        let ass = Assignment {
            lvalue: LValue::Id(Id {
                name: "foo".into(),
                info: (),
                position: Span::default(),
            }),
            info: (),
            rvalue: Expression::Num(Num::Integer(42, (), Span::default())),
            position: Span::default(),
        };

        let result = ass.check(&mut ctx);

        assert_eq!(
            result,
            Err(TypeCheckError::TypeMismatch(
                TypeMismatch {
                    expected: Type::FloatingPoint,
                    actual: Type::Integer
                },
                Span::default()
            ))
        );
    }

#[test]
    fn test_immutable_assign_error() {
        let mut ctx = Context::default();
        ctx.scope.add_variable(
            "foo", type_of(&Expression::Id(Id {
                name: "foo".into(),
                info: TypeInformation {
                    type_id: Some(Type::Integer),
                    context: ctx.clone(),
                },
                position: Span::default(),
            })),
            false).unwrap();

        let ass = Assignment {
            lvalue: LValue::Id(Id {
                name: "foo".into(),
                info: (),
                position: Span::default(),
            }),
            info: (),
            rvalue: Expression::Num(Num::Integer(42, (), Span::default())),
            position: Span::default(),
        };

        let result = ass.check(&mut ctx);

        assert_eq!(
            result,
            Err(TypeCheckError::ImmutableReassign(
                ImmutableReassign {
                    variable_name: "foo".into()
                },
                Span::default()
            ))
        );
    }

#[test]
    fn test_undefined_reassign_error() {
        let mut ctx = Context::default();

        let ass = Assignment {
            lvalue: LValue::Id(Id {
                name: "foo".into(),
                info: (),
                position: Span::default(),
            }),
            info: (),
            rvalue: Expression::Num(Num::Integer(42, (), Span::default())),
            position: Span::default(),
        };

        let result = ass.check(&mut ctx);

        assert_eq!(
            result,
            Err(TypeCheckError::UndefinedVariable(
                UndefinedVariable {
                    variable_name: "foo".into()
                },
                Span::default()
            ))
        );
    }

#[test]
    fn test_struct_property_assign() {
        let mut ctx = Context::default();

        ctx.scope.add_type(
            "Foo",
            Type::Struct("Foo".to_string(), vec![("bar".to_string(), Type::Integer)]),
        ).unwrap();

        ctx.scope.add_variable(
            "foo", type_of(&Expression::StructInitialisation(StructInitialisation {
                id: Id {
                    name: "foo".to_string(),
                    info: TypeInformation {
                        type_id: Some(Type::Struct(
                            "Foo".to_string(),
                            vec![("bar".to_string(), Type::Integer)],
                        )),
                        context: ctx.clone(),
                    },
                    position: Span::default(),
                },
                fields: vec![StructFieldInitialisation {
                    name: Id {
                        name: "bar".into(),
                        info: TypeInformation {
                            type_id: Some(Type::Integer),
                            context: ctx.clone(),
                        },
                        position: Span::default(),
                    },
                    value: Expression::Num(Num::Integer(
                        1337,
                        TypeInformation {
                            type_id: Some(Type::Integer),
                            context: ctx.clone(),
                        },
                        Span::default(),
                    )),
                    info: TypeInformation {
                        type_id: Some(Type::Integer),
                        context: ctx.clone(),
                    },
                    position: Span::default(),
                }],
                info: TypeInformation {
                    type_id: Some(Type::Struct(
                        "Foo".to_string(),
                        vec![("bar".to_string(), Type::Integer)],
                    )),
                    context: ctx.clone(),
                },
                position: Span::default(),
            })),
            true).unwrap();

        let assignment = Assignment {
            lvalue: LValue::Postfix(Postfix::PropertyAccess {
                expr: Box::new(Expression::Id(Id {
                    name: "foo".into(),
                    info: (),
                    position: Span::default(),
                })),
                property: Id {
                    name: "bar".into(),
                    info: (),
                    position: Span::default(),
                },
                info: (),
                position: Span::default(),
            }),
            rvalue: Expression::Num(Num::Integer(42, (), Span::default())),
            info: (),
            position: Span::default(),
        };

        assignment.check(&mut ctx).unwrap();
    }

#[test]
    fn test_immutable_struct_property_assign_error() {
        let mut ctx = Context::default();

        ctx.scope.add_type(
            "Foo",
            Type::Struct("Foo".to_string(), vec![("bar".to_string(), Type::Integer)]),
        ).unwrap();

        ctx.scope.add_variable(
            "foo", type_of(&Expression::StructInitialisation(StructInitialisation {
                id: Id {
                    name: "foo".to_string(),
                    info: TypeInformation {
                        type_id: Some(Type::Struct(
                            "Foo".to_string(),
                            vec![("bar".to_string(), Type::Integer)],
                        )),
                        context: ctx.clone(),
                    },
                    position: Span::default(),
                },
                fields: vec![StructFieldInitialisation {
                    name: Id {
                        name: "bar".into(),
                        info: TypeInformation {
                            type_id: Some(Type::Integer),
                            context: ctx.clone(),
                        },
                        position: Span::default(),
                    },
                    value: Expression::Num(Num::Integer(
                        1337,
                        TypeInformation {
                            type_id: Some(Type::Integer),
                            context: ctx.clone(),
                        },
                        Span::default(),
                    )),
                    info: TypeInformation {
                        type_id: Some(Type::Integer),
                        context: ctx.clone(),
                    },
                    position: Span::default(),
                }],
                info: TypeInformation {
                    type_id: Some(Type::Struct(
                        "Foo".to_string(),
                        vec![("bar".to_string(), Type::Integer)],
                    )),
                    context: ctx.clone(),
                },
                position: Span::default(),
            })),
            false).unwrap();

        let assignment = Assignment {
            lvalue: LValue::Postfix(Postfix::PropertyAccess {
                expr: Box::new(Expression::Id(Id {
                    name: "foo".into(),
                    info: (),
                    position: Span::default(),
                })),
                property: Id {
                    name: "bar".into(),
                    info: (),
                    position: Span::default(),
                },
                info: (),
                position: Span::default(),
            }),
            rvalue: Expression::Num(Num::Integer(42, (), Span::default())),
            info: (),
            position: Span::default(),
        };

        let res = assignment.check(&mut ctx);

        assert!(res.is_err());
    }

#[test]
    fn test_constant_simple() {
        let mut ctx = Context::default();

        let constant = Constant {
            id: Id {
                name: "foo".into(),
                info: (),
                position: Span::default(),
            },
            type_annotation: TypeName::Literal("i64".into(), Span::default()),
            value: Expression::Num(Num::Integer(42, (), Span::default())),
            info: (),
            position: Span::default(),
        };

        constant.shallow_check(&mut ctx).unwrap();
        let constant = constant.check(&mut ctx).unwrap();

        assert_eq!(
            constant.id.info.type_id,
            Some(Type::Integer)
        );

        assert_eq!(
            ctx.scope.resolve_name("foo"),
            Some(Some(Type::Integer))
        );
    }

#[test]
    fn test_error_on_missing_type_annotation() {
        let mut ctx = Context::default();

        let constant = Constant {
            id: Id {
                name: "foo".into(),
                info: (),
                position: Span::default(),
            },
            type_annotation: TypeName::Literal("".into(), Span::default()),
            value: Expression::Num(Num::Integer(42, (), Span::default())),
            info: (),
            position: Span::default(),
        };

        let result = constant.check(&mut ctx);

        assert_eq!(
            result,
            Err(TypeCheckError::InvalidConstantType(
                InvalidConstantType {
                    constant_name: "foo".into()
                },
                Span::default()
            ))
        );
    }

#[test]
    fn test_error_on_redefinition() {
        let mut ctx = Context::default();
        ctx.scope.add_constant("foo", Type::Integer).unwrap();

        let constant = Constant {
            id: Id {
                name: "foo".into(),
                info: (),
                position: Span::default(),
            },
            type_annotation: TypeName::Literal("".into(), Span::default()),
            value: Expression::Num(Num::Integer(42, (), Span::default())),
            info: (),
            position: Span::default(),
        };

        let result = constant.check(&mut ctx);

        assert_eq!(
            result,
            Err(TypeCheckError::InvalidConstantType(
                InvalidConstantType {
                    constant_name: "foo".into()
                },
                Span::default()
            ))
        );
    }

#[test]
    fn test_no_field_manipulation() {
        let mut ctx = Context::default();

        let dec = Declaration {
            name: Id {
                name: "foo".into(),
                info: (),
                position: Span::default(),
            },
            type_annotation: TypeName::Literal("i64".into(), Span::default()),
            info: (),
            position: Span::default(),
        };

        let dec = dec.check(&mut ctx).unwrap();

        assert_eq!(dec.name.name, "foo".to_string());
        assert_eq!(
            dec.type_annotation,
            TypeName::Literal("i64".into(), Span::default())
        );
    }

#[test]
    fn declaration_test_add_variable() {
        let mut ctx = Context::default();

        let dec = Declaration {
            name: Id {
                name: "foo".into(),
                info: (),
                position: Span::default(),
            },
            type_annotation: TypeName::Literal("i64".into(), Span::default()),
            info: (),
            position: Span::default(),
        };

        dec.shallow_check(&mut ctx).unwrap();

        let var = ctx.scope.resolve_name("foo");

        assert_eq!(var, Some(Some(Type::Integer)));
    }

#[test]
    fn declaration_test_correct_type_inference() {
        let mut ctx = Context::default();

        let dec = Declaration {
            name: Id {
                name: "foo".into(),
                info: (),
                position: Span::default(),
            },
            type_annotation: TypeName::Literal("i64".into(), Span::default()),
            info: (),
            position: Span::default(),
        };

        let dec = dec.check(&mut ctx).unwrap();

        assert_eq!(
            dec.name.info.type_id,
            Some(Type::Integer)
        );
        assert_eq!(dec.info.type_id, Some(Type::Void));
    }

#[test]
    fn test_not_manipulation_of_fields() {
        let mut ctx = Context::default();

        let init = Initialisation {
            id: Id {
                name: "foo".into(),
                info: (),
                position: Span::default(),
            },
            mutable: false,
            type_annotation: None,
            value: Expression::Num(Num::Integer(42, (), Span::default())),
            info: (),
            position: Span::default(),
        }
        .check(&mut ctx).unwrap();

        assert_eq!(init.id.name, "foo".to_string());
        assert!(!init.mutable);
        assert!(init.type_annotation.is_none());
        assert_eq!(
            init.value,
            Expression::Num(Num::Integer(
                42,
                TypeInformation {
                    type_id: Some(Type::Integer),
                    context: Context::default(),
                },
                Span::default()
            ))
        );
    }

#[test]
    fn initialisation_test_add_variable() {
        let mut ctx = Context::default();

        let init = Initialisation {
            id: Id {
                name: "foo".into(),
                info: (),
                position: Span::default(),
            },
            mutable: false,
            type_annotation: None,
            value: Expression::Num(Num::Integer(42, (), Span::default())),
            info: (),
            position: Span::default(),
        };

        init.check(&mut ctx).unwrap();

        let var = ctx.scope.resolve_name("foo");

        assert_eq!(var, Some(Some(Type::Integer)));
    }

#[test]
    fn initialisation_test_correct_type_inference() {
        let mut ctx = Context::default();

        let init = Initialisation {
            id: Id {
                name: "foo".into(),
                info: (),
                position: Span::default(),
            },
            mutable: false,
            type_annotation: None,
            value: Expression::Num(Num::Integer(42, (), Span::default())),
            info: (),
            position: Span::default(),
        };

        let init = init.check(&mut ctx).unwrap();

        assert_eq!(
            init.info,
            TypeInformation {
                type_id: Some(Type::Void),
                context: Context::default(),
            }
        );
        assert_eq!(
            init.id.info,
            TypeInformation {
                type_id: Some(Type::Integer),
                context: Context::default(),
            }
        );
    }

#[test]
    fn test_type_mismatch() {
        let mut ctx = Context::default();

        let init = Initialisation {
            id: Id {
                name: "foo".into(),
                info: (),
                position: Span::default(),
            },
            mutable: false,
            type_annotation: Some(TypeName::Literal("f64".into(), Span::default())),
            value: Expression::Num(Num::Integer(42, (), Span::default())),
            info: (),
            position: Span::default(),
        };

        let init = init.check(&mut ctx);
        assert_eq!(
            init,
            Err(TypeCheckError::TypeMismatch(
                TypeMismatch {
                    expected: Type::FloatingPoint,
                    actual: Type::Integer
                },
                Span::default()
            ))
        );
    }

#[test]
    fn test_error_on_missing_type() {
        let mut ctx = Context::default();

        let init = Initialisation {
            id: Id {
                name: "foo".into(),
                info: (),
                position: Span::default(),
            },
            mutable: false,
            type_annotation: None,
            value: Expression::Lambda(Lambda {
                parameters: vec![LambdaParameter {
                    name: Id {
                        name: "x".into(),
                        info: (),
                        position: Span::default(),
                    },
                    info: (),
                    position: Span::default(),
                }],
                expression: Box::new(Expression::Id(Id {
                    name: "x".into(),
                    info: (),
                    position: Span::default(),
                })),
                info: (),
                position: Span::default(),
            }),
            info: (),
            position: Span::default(),
        };

        let res = init.check(&mut ctx);

        assert_eq!(
            res,
            Err(TypeCheckError::MissingInitialisationType(
                MissingInitialisationType,
                Span::default()
            ))
        );
    }

#[test]
    fn test_empty_instance_on_intrinsic() {
        let mut ctx = Context::default();

        let inst = Instance {
            name: TypeName::Literal("i64".into(), Span::default()),
            functions: vec![],
            declarations: vec![],
            info: (),
            position: Span::default(),
        };

        let result = inst.check(&mut ctx).unwrap();

        assert_eq!(
            result,
            Instance {
                name: TypeName::Literal("i64".into(), Span::default()),
                functions: vec![],
                declarations: vec![],
                info: TypeInformation {
                    type_id: Some(Type::Void),
                    context: ctx
                },
                position: Span::default(),
            }
        );
    }

#[test]
    fn test_error_on_undefined_type() {
        let mut ctx = Context::default();

        let inst = Instance {
            name: TypeName::Literal("Foo".into(), Span::default()),
            functions: vec![],
            declarations: vec![],
            info: (),
            position: Span::default(),
        };

        let result = inst.check(&mut ctx);

        assert_eq!(
            result,
            Err(TypeCheckError::UndefinedType(
                UndefinedType {
                    type_annotation: TypeName::Literal("Foo".into(), Span::default())
                },
                Span::default()
            ))
        );
    }

#[test]
    fn test_empty_instance_on_struct() {
        let mut ctx = Context::default();

        ctx.scope
            .add_type("Foo", Type::Struct("Foo".into(), vec![])).unwrap();

        let inst = Instance {
            name: TypeName::Literal("Foo".into(), Span::default()),
            functions: vec![],
            declarations: vec![],
            info: (),
            position: Span::default(),
        };

        let result = inst.check(&mut ctx).unwrap();

        assert_eq!(
            result,
            Instance {
                name: TypeName::Literal("Foo".into(), Span::default()),
                functions: vec![],
                declarations: vec![],
                info: TypeInformation {
                    type_id: Some(Type::Void),
                    context: ctx
                },
                position: Span::default(),
            }
        );
    }

#[test]
    fn test_simple_instance_on_intrinsic() {
        let mut ctx = Context::default();

        let inst = Instance {
            name: TypeName::Literal("i64".into(), Span::default()),
            functions: vec![Function {
                id: Id {
                    name: "bar".into(),
                    info: (),
                    position: Span::default(),
                },
                parameters: vec![],
                return_type: TypeName::Literal("i64".into(), Span::default()),
                body: Block { statements: vec![Statement::YieldingExpression(Expression::Id(Id {
                    name: "this".into(),
                    info: (),
                    position: Span::default(),
                }))], info: (), position: Span::default() },
                info: (),
                position: Span::default(),
            }],
            declarations: vec![],
            info: (),
            position: Span::default(),
        };

        let result = inst.check(&mut ctx).unwrap();

        assert_eq!(
            result,
            Instance {
                name: TypeName::Literal("i64".into(), Span::default()),
                functions: vec![Function {
                    id: Id {
                        name: "bar".into(),
                        info: TypeInformation {
                            type_id: Some(Type::Function {
                                params: vec![],
                                return_value: Box::new(Type::Integer)
                            }),
                            context: Context::default()
                        },
                        position: Span::default(),
                    },
                    parameters: vec![],
                    return_type: TypeName::Literal("i64".into(), Span::default()),
                    body: Block { statements: vec![Statement::YieldingExpression(Expression::Id(Id {
                        name: "this".into(),
                        info: TypeInformation {
                            type_id: Some(Type::Integer),
                            context: Context::default()
                        },
                        position: Span::default(),
                    }))], info: TypeInformation { type_id: Some(Type::Integer), context: Context::default() }, position: Span::default() },
                    info: TypeInformation {
                        type_id: Some(Type::Function {
                            params: vec![],
                            return_value: Box::new(Type::Integer)
                        }),
                        context: Context::default()
                    },
                    position: Span::default(),
                }],
                declarations: vec![],
                info: TypeInformation {
                    type_id: Some(Type::Void),
                    context: Context::default()
                },
                position: Span::default(),
            }
        );
    }

#[test]
    fn test_simple_instance_on_struct() {
        let mut ctx = Context::default();
        ctx.scope.add_type(
            "Foo",
            Type::Struct("Foo".into(), vec![("baz".into(), Type::Integer)]),
        ).unwrap();

        let inst = Instance {
            name: TypeName::Literal("Foo".into(), Span::default()),
            functions: vec![Function {
                id: Id {
                    name: "bar".into(),
                    info: (),
                    position: Span::default(),
                },
                parameters: vec![],
                return_type: TypeName::Literal("i64".into(), Span::default()),
                body: Block { statements: vec![Statement::YieldingExpression(Expression::Postfix(
                    Postfix::PropertyAccess {
                        expr: Box::new(Expression::Id(Id {
                            name: "this".into(),
                            info: (),
                            position: Span::default(),
                        })),
                        property: Id {
                            name: "baz".into(),
                            info: (),
                            position: Span::default(),
                        },
                        info: (),
                        position: Span::default(),
                    },
                ))], info: (), position: Span::default() },
                info: (),
                position: Span::default(),
            }],
            declarations: vec![],
            info: (),
            position: Span::default(),
        };

        let result = inst.check(&mut ctx).unwrap();

        assert_eq!(
            result,
            Instance {
                name: TypeName::Literal("Foo".into(), Span::default()),
                functions: vec![Function {
                    id: Id {
                        name: "bar".into(),
                        info: TypeInformation {
                            type_id: Some(Type::Function {
                                params: vec![],
                                return_value: Box::new(Type::Integer),
                            }),
                            context: Context::default(),
                        },
                        position: Span::default(),
                    },
                    parameters: vec![],
                    return_type: TypeName::Literal("i64".into(), Span::default()),
                    body: Block { statements: vec![Statement::YieldingExpression(Expression::Postfix(
                        Postfix::PropertyAccess {
                            expr: Box::new(Expression::Id(Id {
                                name: "this".into(),
                                info: TypeInformation {
                                    type_id: Some(Type::Struct(
                                        "Foo".into(),
                                        vec![("baz".into(), Type::Integer)],
                                    )),
                                    context: Context::default(),
                                },
                                position: Span::default(),
                            })),
                            property: Id {
                                name: "baz".into(),
                                info: TypeInformation {
                                    type_id: Some(Type::Integer),
                                    context: Context::default(),
                                },
                                position: Span::default(),
                            },
                            info: TypeInformation {
                                type_id: Some(Type::Integer),
                                context: Context::default(),
                            },
                            position: Span::default(),
                        },
                    ))], info: TypeInformation { type_id: Some(Type::Integer), context: Context::default() }, position: Span::default() },
                    info: TypeInformation {
                        type_id: Some(Type::Function {
                            params: vec![],
                            return_value: Box::new(Type::Integer),
                        }),
                        context: Context::default(),
                    },
                    position: Span::default(),
                }],
                declarations: vec![],
                info: TypeInformation {
                    type_id: Some(Type::Void),
                    context: Context::default(),
                },
                position: Span::default(),
            }
        );
    }

#[test]
    fn test_complex_instance() {
        let mut ctx = Context::default();
        ctx.scope.add_type(
            "Foo",
            Type::Struct("Foo".into(), vec![("baz".into(), Type::Integer)]),
        ).unwrap();

        let inst = Instance {
            name: TypeName::Literal("Foo".into(), Span::default()),
            functions: vec![Function {
                id: Id {
                    name: "bar".into(),
                    info: (),
                    position: Span::default(),
                },
                parameters: vec![],
                return_type: TypeName::Literal("i64".into(), Span::default()),
                body: Block { statements: vec![Statement::YieldingExpression(Expression::Postfix(
                    Postfix::PropertyAccess {
                        expr: Box::new(Expression::Id(Id {
                            name: "this".into(),
                            info: (),
                            position: Span::default(),
                        })),
                        property: Id {
                            name: "baz".into(),
                            info: (),
                            position: Span::default(),
                        },
                        info: (),
                        position: Span::default(),
                    },
                ))], info: (), position: Span::default() },
                info: (),
                position: Span::default(),
            }],
            declarations: vec![MethodDeclaration {
                id: Id {
                    name: "foo".into(),
                    info: (),
                    position: Span::default(),
                },
                parameter_types: vec![
                    TypeName::Literal("i64".into(), Span::default()),
                    TypeName::Tuple(
                        vec![
                            TypeName::Literal("i64".into(), Span::default()),
                            TypeName::Literal("f64".into(), Span::default()),
                        ],
                        Span::default(),
                    ),
                ],
                return_type: TypeName::Literal("i64".into(), Span::default()),
                info: (),
                position: Span::default(),
            }],
            info: (),
            position: Span::default(),
        };

        let result = inst.check(&mut ctx).unwrap();

        assert_eq!(
            result,
            Instance {
                name: TypeName::Literal("Foo".into(), Span::default()),
                functions: vec![Function {
                    id: Id {
                        name: "bar".into(),
                        info: TypeInformation {
                            type_id: Some(Type::Function {
                                params: vec![],
                                return_value: Box::new(Type::Integer),
                            }),
                            context: Context::default(),
                        },
                        position: Span::default(),
                    },
                    parameters: vec![],
                    return_type: TypeName::Literal("i64".into(), Span::default()),
                    body: Block { statements: vec![Statement::YieldingExpression(Expression::Postfix(
                        Postfix::PropertyAccess {
                            expr: Box::new(Expression::Id(Id {
                                name: "this".into(),
                                info: TypeInformation {
                                    type_id: Some(Type::Struct(
                                        "Foo".into(),
                                        vec![("baz".into(), Type::Integer)],
                                    )),
                                    context: Context::default(),
                                },
                                position: Span::default(),
                            })),
                            property: Id {
                                name: "baz".into(),
                                info: TypeInformation {
                                    type_id: Some(Type::Integer),
                                    context: Context::default(),
                                },
                                position: Span::default(),
                            },
                            info: TypeInformation {
                                type_id: Some(Type::Integer),
                                context: Context::default(),
                            },
                            position: Span::default(),
                        },
                    ))], info: TypeInformation { type_id: Some(Type::Integer), context: Context::default() }, position: Span::default() },
                    info: TypeInformation {
                        type_id: Some(Type::Function {
                            params: vec![],
                            return_value: Box::new(Type::Integer),
                        }),
                        context: Context::default(),
                    },
                    position: Span::default(),
                }],
                declarations: vec![MethodDeclaration {
                    id: Id {
                        name: "foo".into(),
                        info: TypeInformation {
                            type_id: Some(Type::Function {
                                params: vec![
                                    Type::Integer,
                                    Type::Tuple(vec![Type::Integer, Type::FloatingPoint])
                                ],
                                return_value: Box::new(Type::Integer)
                            }),
                            context: ctx.clone()
                        },
                        position: Span::default(),
                    },
                    parameter_types: vec![
                        TypeName::Literal("i64".into(), Span::default()),
                        TypeName::Tuple(
                            vec![
                                TypeName::Literal("i64".into(), Span::default()),
                                TypeName::Literal("f64".into(), Span::default()),
                            ],
                            Span::default(),
                        ),
                    ],
                    return_type: TypeName::Literal("i64".into(), Span::default()),
                    info: TypeInformation {
                        type_id: Some(Type::Void),
                        context: ctx.clone()
                    },
                    position: Span::default(),
                }],
                info: TypeInformation {
                    type_id: Some(Type::Void),
                    context: Context::default(),
                },
                position: Span::default(),
            }
        );
    }

#[test]
    fn test_simple_method_declaration() {
        let mut ctx = Context::default();

        let dec = MethodDeclaration {
            id: Id {
                name: "foo".into(),
                info: (),
                position: Span::default(),
            },
            parameter_types: vec![],
            return_type: TypeName::Literal("void".into(), Span::default()),
            info: (),
            position: Span::default(),
        };

        let dec = dec.check(&mut ctx).unwrap();

        assert_eq!(
            dec,
            MethodDeclaration {
                id: Id {
                    name: "foo".into(),
                    info: TypeInformation {
                        type_id: Some(Type::Function {
                            params: vec![],
                            return_value: Box::new(Type::Void)
                        }),
                        context: ctx.clone()
                    },
                    position: Span::default(),
                },
                parameter_types: vec![],
                return_type: TypeName::Literal("void".into(), Span::default()),
                info: TypeInformation {
                    type_id: Some(Type::Void),
                    context: ctx.clone()
                },
                position: Span::default(),
            }
        );
    }

#[test]
    fn test_complex_method_declaration() {
        let mut ctx = Context::default();

        let dec = MethodDeclaration {
            id: Id {
                name: "foo".into(),
                info: (),
                position: Span::default(),
            },
            parameter_types: vec![
                TypeName::Literal("i64".into(), Span::default()),
                TypeName::Tuple(
                    vec![
                        TypeName::Literal("i64".into(), Span::default()),
                        TypeName::Literal("f64".into(), Span::default()),
                    ],
                    Span::default(),
                ),
            ],
            return_type: TypeName::Literal("i64".into(), Span::default()),
            info: (),
            position: Span::default(),
        };

        let dec = dec.check(&mut ctx).unwrap();

        assert_eq!(
            dec,
            MethodDeclaration {
                id: Id {
                    name: "foo".into(),
                    info: TypeInformation {
                        type_id: Some(Type::Function {
                            params: vec![
                                Type::Integer,
                                Type::Tuple(vec![Type::Integer, Type::FloatingPoint])
                            ],
                            return_value: Box::new(Type::Integer)
                        }),
                        context: ctx.clone()
                    },
                    position: Span::default(),
                },
                parameter_types: vec![
                    TypeName::Literal("i64".into(), Span::default()),
                    TypeName::Tuple(
                        vec![
                            TypeName::Literal("i64".into(), Span::default()),
                            TypeName::Literal("f64".into(), Span::default()),
                        ],
                        Span::default(),
                    ),
                ],
                return_type: TypeName::Literal("i64".into(), Span::default()),
                info: TypeInformation {
                    type_id: Some(Type::Void),
                    context: ctx.clone()
                },
                position: Span::default(),
            }
        );
    }

#[test]
    fn test_empty_struct_declaration() {
        let mut ctx = Context::default();

        let dec = StructDeclaration {
            id: Id {
                name: "Foo".into(),
                info: (),
                position: Span::default(),
            },
            fields: vec![],
            info: (),
            position: Span::default(),
        };

        dec.shallow_check(&mut ctx).unwrap();
        let dec = dec.check(&mut ctx).unwrap();

        assert_eq!(dec.info.type_id, Some(Type::Void));

        assert_eq!(
            ctx.scope.get_type("Foo"),
            Some(Type::Struct("Foo".into(), vec![]))
        );
    }

#[test]
    fn test_filled_struct_declaration() {
        let mut ctx = Context::default();

        let dec = StructDeclaration {
            id: Id {
                name: "Foo".into(),
                info: (),
                position: Span::default(),
            },
            fields: vec![
                StructFieldDeclaration {
                    name: Id {
                        name: "bar".into(),
                        info: (),
                        position: Span::default(),
                    },
                    type_annotation: TypeName::Literal("i64".into(), Span::default()),
                    info: (),
                    position: Span::default(),
                },
                StructFieldDeclaration {
                    name: Id {
                        name: "baz".into(),
                        info: (),
                        position: Span::default(),
                    },
                    type_annotation: TypeName::Literal("f64".into(), Span::default()),
                    info: (),
                    position: Span::default(),
                },
            ],
            info: (),
            position: Span::default(),
        };

        dec.shallow_check(&mut ctx).unwrap();
        let dec = dec.check(&mut ctx).unwrap();

        assert_eq!(dec.info.type_id, Some(Type::Void));

        assert_eq!(
            ctx.scope.get_type("Foo"),
            Some(Type::Struct(
                "Foo".into(),
                vec![
                    ("bar".into(), Type::Integer),
                    ("baz".into(), Type::FloatingPoint)
                ]
            ))
        );
    }

#[test]
    fn test_nested_struct() {
        let mut ctx = Context::default();

        let dec = StructDeclaration {
            id: Id {
                name: "BarStruct".into(),
                info: (),
                position: Span::default(),
            },
            fields: vec![],
            info: (),
            position: Span::default(),
        };

        dec.shallow_check(&mut ctx).unwrap();
        dec.check(&mut ctx).unwrap();

        let dec = StructDeclaration {
            id: Id {
                name: "Foo".into(),
                info: (),
                position: Span::default(),
            },
            fields: vec![
                StructFieldDeclaration {
                    name: Id {
                        name: "bar".into(),
                        info: (),
                        position: Span::default(),
                    },
                    type_annotation: TypeName::Literal("BarStruct".into(), Span::default()),
                    info: (),
                    position: Span::default(),
                },
                StructFieldDeclaration {
                    name: Id {
                        name: "baz".into(),
                        info: (),
                        position: Span::default(),
                    },
                    type_annotation: TypeName::Literal("f64".into(), Span::default()),
                    info: (),
                    position: Span::default(),
                },
            ],
            info: (),
            position: Span::default(),
        };

        dec.shallow_check(&mut ctx).unwrap();
        let dec = dec.check(&mut ctx).unwrap();

        assert_eq!(dec.info.type_id, Some(Type::Void));

        assert_eq!(
            ctx.scope.get_type("Foo"),
            Some(Type::Struct(
                "Foo".into(),
                vec![
                    ("bar".into(), Type::Struct("BarStruct".into(), vec![])),
                    ("baz".into(), Type::FloatingPoint)
                ]
            ))
        );
    }

#[test]
    fn test_empty_while_loop() {
        let mut ctx = Context::default();

        ctx.scope.add_variable(
            "foo", type_of(&Expression::Id(Id {
                name: "foo".into(),
                info: TypeInformation {
                    type_id: Some(Type::Boolean),
                    context: ctx.clone(),
                },
                position: Span::default(),
            })),
            false).unwrap();

        let while_l = WhileLoop {
            condition: Expression::Id(Id {
                name: "foo".into(),
                info: (),
                position: Span::default(),
            }),
            block: Block {
                statements: vec![],
                info: (),
                position: Span::default(),
            },
            info: (),
            position: Span::default(),
        };

        let while_l = while_l.check(&mut ctx).unwrap();

        assert_eq!(
            while_l.info.type_id,
            Some(Type::Void)
        );
    }

#[test]
    fn test_non_empty_while_loop() {
        let mut ctx = Context::default();

        ctx.scope.add_variable(
            "foo", type_of(&Expression::Id(Id {
                name: "foo".into(),
                info: TypeInformation {
                    type_id: Some(Type::Boolean),
                    context: ctx.clone(),
                },
                position: Span::default(),
            })),
            false).unwrap();

        let while_l = WhileLoop {
            condition: Expression::Id(Id {
                name: "foo".into(),
                info: (),
                position: Span::default(),
            }),
            block: Block {
                statements: vec![Statement::YieldingExpression(Expression::Num(
                    Num::Integer(42, (), Span::default()),
                ))],
                info: (),
                position: Span::default(),
            },
            info: (),
            position: Span::default(),
        };

        let while_l = while_l.check(&mut ctx).unwrap();

        assert_eq!(
            while_l.info.type_id,
            Some(Type::Void)
        );
    }

#[test]
fn test_error_on_type_update() {
    let mut ctx = Context::default();

    let init = Initialisation {
        id: Id {
            name: "foo".into(),
            info: (),
            position: Span::default(),
        },
        mutable: false,
        type_annotation: Some(TypeName::Fn {
            params: vec![TypeName::Literal("i64".into(), Span::default())],
            return_type: Box::new(TypeName::Literal("i64".into(), Span::default())),
            position: Span::default(),
        }),
        value: Expression::Lambda(Lambda {
            parameters: vec![LambdaParameter {
                name: Id {
                    name: "x".into(),
                    info: (),
                    position: Span::default(),
                },
                info: (),
                position: Span::default(),
            }],
            expression: Box::new(Expression::Id(Id {
                name: "x".into(),
                info: (),
                position: Span::default(),
            })),
            info: (),
            position: Span::default(),
        }),
        info: (),
        position: Span::default(),
    };

    assert!(init.check(&mut ctx).is_ok());

    assert!(ctx
        .scope
        .update_variable(
            "foo",
            Type::Function {
                params: vec![Type::Integer],
                return_value: Box::new(Type::Integer),
            },
        )
        .is_ok());

    assert!(ctx
        .scope
        .update_variable(
            "foo",
            Type::Function {
                params: vec![Type::FloatingPoint],
                return_value: Box::new(Type::Integer),
            },
        )
        .is_err());
}
