use why_lib::lexer::Span;
use why_lib::parser::ast::{
    Array, Assignment, AstString, BinaryExpression, BinaryOperator, Block, Bool, Character,
    Declaration, Expression, Function, Id, If, Initialisation, LValue, Lambda, Num, Postfix,
    Statement, StructInitialisation, TopLevelStatement, TypeName,
};
use why_lib::parser::program::parse_program;

fn first_top_level(code: &str) -> Result<TopLevelStatement<()>, String> {
    let program = parse_program(code).map_err(|e| format!("Parse error: {:?}", e))?;
    program
        .into_iter()
        .next()
        .ok_or_else(|| "No statements found in program".to_string())
}

fn first_statement_of_main(wrapped: &str) -> Result<Statement<()>, String> {
    match first_top_level(wrapped)? {
        TopLevelStatement::Function(function) => function
            .body
            .statements
            .into_iter()
            .next()
            .ok_or_else(|| "Empty function body".to_string()),
        _ => Err("Expected a function".to_string()),
    }
}

#[allow(dead_code)]
fn parse_expression(code: &str) -> Result<Expression<()>, String> {
    let wrapped = format!("fn main(): void {{ {}; }}", code);
    match first_statement_of_main(&wrapped)? {
        Statement::Expression(expr) => Ok(expr),
        _ => Err("Failed to extract expression from parsed result".to_string()),
    }
}

#[allow(dead_code)]
fn parse_statement(code: &str) -> Result<Statement<()>, String> {
    let wrapped = format!("fn main(): void {{ {} }}", code);
    first_statement_of_main(&wrapped)
}

#[allow(dead_code)]
fn parse_type_name(code: &str) -> Result<TypeName, String> {
    let wrapped = format!("declare x: {};", code);
    match first_top_level(&wrapped)? {
        TopLevelStatement::Declaration(declaration) => Ok(declaration.type_annotation),
        _ => Err("Failed to extract type name from parsed result".to_string()),
    }
}

#[allow(dead_code)]
fn parse_function(code: &str) -> Result<Function<()>, String> {
    match first_top_level(code)? {
        TopLevelStatement::Function(function) => Ok(function),
        _ => Err("Failed to extract function from parsed result".to_string()),
    }
}

#[allow(dead_code)]
fn parse_yielding_expression(code: &str) -> Result<Expression<()>, String> {
    let wrapped = format!("fn main(): void {{ {} }}", code);
    match first_statement_of_main(&wrapped)? {
        Statement::YieldingExpression(expr) => Ok(expr),
        _ => Err("Failed to extract yielding expression from parsed result".to_string()),
    }
}

#[allow(dead_code)]
fn parse_number(code: &str) -> Result<Num<()>, String> {
    match parse_expression(code)? {
        Expression::Num(num) => Ok(num),
        _ => Err("Expected number expression".to_string()),
    }
}

#[allow(dead_code)]
fn parse_id(code: &str) -> Result<Id<()>, String> {
    match parse_expression(code)? {
        Expression::Id(id) => Ok(id),
        _ => Err("Expected identifier expression".to_string()),
    }
}

#[allow(dead_code)]
fn parse_string(code: &str) -> Result<AstString<()>, String> {
    match parse_expression(code)? {
        Expression::AstString(string) => Ok(string),
        _ => Err("Expected string expression".to_string()),
    }
}

#[allow(dead_code)]
fn parse_array(code: &str) -> Result<Array<()>, String> {
    match parse_expression(code)? {
        Expression::Array(array) => Ok(array),
        _ => Err("Expected array expression".to_string()),
    }
}

#[allow(dead_code)]
fn parse_character(code: &str) -> Result<Character<()>, String> {
    match parse_expression(code)? {
        Expression::Character(character) => Ok(character),
        _ => Err("Expected character expression".to_string()),
    }
}

#[allow(dead_code)]
fn parse_if(code: &str) -> Result<If<()>, String> {
    match parse_expression(code)? {
        Expression::If(if_expr) => Ok(if_expr),
        _ => Err("Expected if expression".to_string()),
    }
}

#[allow(dead_code)]
fn parse_struct_init(code: &str) -> Result<StructInitialisation<()>, String> {
    match parse_expression(code)? {
        Expression::StructInitialisation(struct_init) => Ok(struct_init),
        _ => Err("Expected struct initialization expression".to_string()),
    }
}

#[allow(dead_code)]
fn parse_lambda(code: &str) -> Result<Lambda<()>, String> {
    match parse_expression(code)? {
        Expression::Lambda(lambda) => Ok(lambda),
        _ => Err("Expected lambda expression".to_string()),
    }
}

#[allow(dead_code)]
fn parse_declaration(code: &str) -> Result<Declaration<()>, String> {
    match first_top_level(code)? {
        TopLevelStatement::Declaration(declaration) => Ok(declaration),
        _ => Err("Failed to extract declaration from parsed result".to_string()),
    }
}

#[allow(dead_code)]
fn parse_initialization(code: &str) -> Result<Initialisation<()>, String> {
    let wrapped = format!("fn main(): void {{ {} }}", code);
    match first_statement_of_main(&wrapped)? {
        Statement::Initialization(init) => Ok(init),
        _ => Err("Failed to extract initialization from parsed result".to_string()),
    }
}

#[allow(dead_code)]
fn parse_assignment(code: &str) -> Result<Assignment<()>, String> {
    let wrapped = format!("fn main(): void {{ {}; }}", code);
    match first_statement_of_main(&wrapped)? {
        Statement::Assignment(assignment) => Ok(assignment),
        _ => Err("Failed to extract assignment from parsed result".to_string()),
    }
}

#[allow(dead_code)]
fn parse_block(code: &str) -> Result<Block<()>, String> {
    let wrapped = format!("fn test(): void {}", code);
    match first_top_level(&wrapped)? {
        TopLevelStatement::Function(function) => Ok(Block {
            statements: function.body.statements,
            info: (),
            position: Span::default(),
        }),
        _ => Err("Failed to extract block from parsed result".to_string()),
    }
}

#[allow(dead_code)]
fn parse_bool(code: &str) -> Result<Bool<()>, String> {
    match parse_expression(code)? {
        Expression::Bool(value) => Ok(value),
        _ => Err("Failed to extract boolean from parsed result".to_string()),
    }
}

#[allow(dead_code)]
fn unused_imports(_: BinaryExpression<()>, _: BinaryOperator, _: LValue<()>, _: Postfix<()>) {}

#[test]
    fn test_parse_simple_assignment() {
        let result = parse_assignment("a = 42").unwrap();

        if let LValue::Id(id) = &result.lvalue {
            assert_eq!(id.name, "a");
        } else {
            panic!("Expected Id lvalue");
        }

        assert!(matches!(
            result.rvalue,
            Expression::Num(why_lib::parser::ast::Num::Integer(42, (), _))
        ));
    }

#[test]
    fn test_indexed_assign() {
        let result = parse_assignment("a[123] = 42").unwrap();

        if let LValue::Postfix(Postfix::Index { expr, index, .. }) = &result.lvalue {
            assert!(matches!(**expr, Expression::Id(ref id) if id.name == "a"));
            assert!(matches!(
                **index,
                Expression::Num(why_lib::parser::ast::Num::Integer(123, (), _))
            ));
        } else {
            panic!("Expected Index postfix lvalue");
        }

        assert!(matches!(
            result.rvalue,
            Expression::Num(why_lib::parser::ast::Num::Integer(42, (), _))
        ));
    }

#[test]
    fn test_property_access_assign() {
        let result = parse_assignment("a.b = 42").unwrap();

        if let LValue::Postfix(Postfix::PropertyAccess { expr, property, .. }) = &result.lvalue {
            assert!(matches!(**expr, Expression::Id(ref id) if id.name == "a"));
            assert_eq!(property.name, "b");
        } else {
            panic!("Expected PropertyAccess postfix lvalue");
        }

        assert!(matches!(
            result.rvalue,
            Expression::Num(why_lib::parser::ast::Num::Integer(42, (), _))
        ));
    }

#[test]
    fn test_combined_index_and_property_assign() {
        let result = parse_assignment("a[123].b = 42").unwrap();

        if let LValue::Postfix(Postfix::PropertyAccess { expr, property, .. }) = &result.lvalue {
            if let Expression::Postfix(Postfix::Index {
                expr: inner_expr,
                index,
                ..
            }) = &**expr
            {
                assert!(matches!(**inner_expr, Expression::Id(ref id) if id.name == "a"));
                assert!(matches!(
                    **index,
                    Expression::Num(why_lib::parser::ast::Num::Integer(123, (), _))
                ));
            } else {
                panic!("Expected Index postfix inside PropertyAccess");
            }
            assert_eq!(property.name, "b");
        } else {
            panic!("Expected PropertyAccess postfix lvalue");
        }

        assert!(matches!(
            result.rvalue,
            Expression::Num(why_lib::parser::ast::Num::Integer(42, (), _))
        ));
    }

#[test]
    fn test_error_on_invalid_lvalue() {
        // This test might not work exactly the same way with rust-sitter parsing
        // but we can test that function calls can't be assigned to
        assert!(parse_assignment("a() = 42").is_err());
    }

#[test]
    fn test_string_assignment() {
        let result = parse_assignment("name = \"hello\"").unwrap();

        if let LValue::Id(id) = &result.lvalue {
            assert_eq!(id.name, "name");
        } else {
            panic!("Expected Id lvalue");
        }

        assert!(matches!(result.rvalue, Expression::AstString(_)));
    }

#[test]
    fn test_parse_simple_declaration() {
        let result = parse_declaration("declare foo: i32;").unwrap();

        assert_eq!(result.name.name, "foo");
        assert!(matches!(result.type_annotation, TypeName::Literal(ref name, _) if name == "i32"));
    }

#[test]
    fn test_parse_tuple_declaration() {
        let result = parse_declaration("declare foo: (i32, i32);").unwrap();

        assert_eq!(result.name.name, "foo");
        if let TypeName::Tuple(types, _) = result.type_annotation {
            assert_eq!(types.len(), 2);
            assert!(matches!(types[0], TypeName::Literal(ref name, _) if name == "i32"));
            assert!(matches!(types[1], TypeName::Literal(ref name, _) if name == "i32"));
        } else {
            panic!("Expected tuple type");
        }
    }

#[test]
    fn test_parse_function_declaration() {
        let result = parse_declaration("declare foo: (i32, i32) -> i32;").unwrap();

        assert_eq!(result.name.name, "foo");
        if let TypeName::Fn {
            params,
            return_type,
            ..
        } = result.type_annotation
        {
            assert_eq!(params.len(), 2);
            assert!(matches!(params[0], TypeName::Literal(ref name, _) if name == "i32"));
            assert!(matches!(params[1], TypeName::Literal(ref name, _) if name == "i32"));
            assert!(matches!(*return_type, TypeName::Literal(ref name, _) if name == "i32"));
        } else {
            panic!("Expected function type");
        }
    }

#[test]
    fn test_parse_reference_declaration() {
        let result = parse_declaration("declare data: &str;").unwrap();

        assert_eq!(result.name.name, "data");
        if let TypeName::Reference(inner, _) = result.type_annotation {
            assert!(matches!(*inner, TypeName::Literal(ref name, _) if name == "str"));
        } else {
            panic!("Expected reference type");
        }
    }

#[test]
    fn test_parse_array_declaration() {
        let result = parse_declaration("declare nums: &[i32];").unwrap();

        assert_eq!(result.name.name, "nums");
        if let TypeName::Array(inner, _) = result.type_annotation {
            assert!(matches!(*inner, TypeName::Literal(ref name, _) if name == "i32"));
        } else {
            panic!("Expected array type");
        }
    }

#[test]
    fn test_simple_initialisation() {
        let result = parse_initialization("let foo = 42;").unwrap();

        assert_eq!(result.id.name, "foo");
        assert!(!result.mutable);
        assert_eq!(result.type_annotation, None);
        assert!(matches!(
            result.value,
            Expression::Num(why_lib::parser::ast::Num::Integer(42, (), _))
        ));
    }

#[test]
    fn test_initialisation_with_typename() {
        let result = parse_initialization("let foo: i32 = 42;").unwrap();

        assert_eq!(result.id.name, "foo");
        assert!(!result.mutable);
        assert!(matches!(result.type_annotation, Some(TypeName::Literal(ref name, _)) if name == "i32"));
        assert!(matches!(
            result.value,
            Expression::Num(why_lib::parser::ast::Num::Integer(42, (), _))
        ));
    }

#[test]
    fn test_mutable_initialisation() {
        let result = parse_initialization("let mut foo = 42;").unwrap();

        assert_eq!(result.id.name, "foo");
        assert!(result.mutable);
        assert_eq!(result.type_annotation, None);
        assert!(matches!(
            result.value,
            Expression::Num(why_lib::parser::ast::Num::Integer(42, (), _))
        ));
    }

#[test]
    fn test_string_initialisation() {
        let result = parse_initialization("let message = \"hello\";").unwrap();

        assert_eq!(result.id.name, "message");
        assert!(!result.mutable);
        assert_eq!(result.type_annotation, None);
        assert!(matches!(result.value, Expression::AstString(_)));
    }

#[test]
    fn test_expression_initialisation() {
        let result = parse_initialization("let sum = x + y;").unwrap();

        assert_eq!(result.id.name, "sum");
        assert!(!result.mutable);
        assert_eq!(result.type_annotation, None);
        assert!(matches!(result.value, Expression::Binary(_)));
    }

#[test]
    fn test_typed_mutable_initialisation() {
        let result = parse_initialization("let mut counter: i32 = 0;").unwrap();

        assert_eq!(result.id.name, "counter");
        assert!(result.mutable);
        assert!(matches!(result.type_annotation, Some(TypeName::Literal(ref name, _)) if name == "i32"));
        assert!(matches!(
            result.value,
            Expression::Num(why_lib::parser::ast::Num::Integer(0, (), _))
        ));
    }

#[test]
    fn test_parse_simple_literal() {
        let result = parse_type_name("i32").unwrap();
        assert!(matches!(result, TypeName::Literal(ref name, _) if name == "i32"));
    }

#[test]
    fn test_parse_simple_tuple() {
        let result = parse_type_name("(i32, i32)").unwrap();
        if let TypeName::Tuple(types, _) = result {
            assert_eq!(types.len(), 2);
            assert!(matches!(types[0], TypeName::Literal(ref name, _) if name == "i32"));
            assert!(matches!(types[1], TypeName::Literal(ref name, _) if name == "i32"));
        } else {
            panic!("Expected tuple type");
        }
    }

#[test]
    fn test_parse_simple_function() {
        let result = parse_type_name("() -> i32").unwrap();
        if let TypeName::Fn {
            params,
            return_type,
            ..
        } = result
        {
            assert_eq!(params.len(), 0);
            assert!(matches!(*return_type, TypeName::Literal(ref name, _) if name == "i32"));
        } else {
            panic!("Expected function type");
        }
    }

#[test]
    fn test_parse_simple_reference() {
        let result = parse_type_name("&i32").unwrap();
        if let TypeName::Reference(inner, _) = result {
            assert!(matches!(*inner, TypeName::Literal(ref name, _) if name == "i32"));
        } else {
            panic!("Expected reference type");
        }
    }

#[test]
    fn test_parse_reference_of_tuple() {
        let result = parse_type_name("&(i32, i32)").unwrap();
        if let TypeName::Reference(inner, _) = result {
            if let TypeName::Tuple(types, _) = inner.as_ref() {
                assert_eq!(types.len(), 2);
                assert!(matches!(types[0], TypeName::Literal(ref name, _) if name == "i32"));
                assert!(matches!(types[1], TypeName::Literal(ref name, _) if name == "i32"));
            } else {
                panic!("Expected tuple inside reference");
            }
        } else {
            panic!("Expected reference type");
        }
    }

#[test]
    fn test_parse_tuple_of_references() {
        let result = parse_type_name("(&i32, &i32)").unwrap();
        if let TypeName::Tuple(types, _) = result {
            assert_eq!(types.len(), 2);
            for type_ref in types {
                if let TypeName::Reference(inner, _) = type_ref {
                    assert!(matches!(*inner, TypeName::Literal(ref name, _) if name == "i32"));
                } else {
                    panic!("Expected reference type in tuple");
                }
            }
        } else {
            panic!("Expected tuple type");
        }
    }

#[test]
    fn test_parse_array_type() {
        let result = parse_type_name("&[i32]").unwrap();
        if let TypeName::Array(inner, _) = result {
            assert!(matches!(*inner, TypeName::Literal(ref name, _) if name == "i32"));
        } else {
            panic!("Expected array type");
        }
    }

#[test]
    fn test_parse_complex_function_type() {
        let result = parse_type_name("(i32, &str) -> bool").unwrap();
        if let TypeName::Fn {
            params,
            return_type,
            ..
        } = result
        {
            assert_eq!(params.len(), 2);
            assert!(matches!(params[0], TypeName::Literal(ref name, _) if name == "i32"));
            assert!(
                matches!(params[1], TypeName::Reference(ref inner, _) if matches!(**inner, TypeName::Literal(ref name, _) if name == "str"))
            );
            assert!(matches!(*return_type, TypeName::Literal(ref name, _) if name == "bool"));
        } else {
            panic!("Expected function type");
        }
    }

#[test]
    fn test_parse_number() {
        let result = parse_number("42").unwrap();
        assert!(matches!(
            result,
            why_lib::parser::ast::Num::Integer(42, (), _)
        ));
    }

#[test]
    fn test_parse_id() {
        let result = parse_id("foo").unwrap();
        assert_eq!(result.name, "foo");
    }

#[test]
    fn test_parse_type_name() {
        let result = parse_type_name("i32").unwrap();
        assert!(matches!(result, TypeName::Literal(ref name, _) if name == "i32"));
    }
