use why_lib::lexer::Span;
use why_lib::parser::ast::{
    Array, Assignment, AstString, BinaryExpression, BinaryOperator, Block, Bool, Character,
    Declaration, Expression, Function, Id, If, Initialisation, LValue, Lambda, Num, Postfix,
    Statement, StructInitialisation, TopLevelStatement, TypeName,
};
use why_lib::parser::program::parse_program;

fn first_top_level(code: &str) -> Result<TopLevelStatement<()>, String> {
    let program = parse_program(code).map_err(|e| format!("Parse error: {:?}", e))?;
    program
        .into_iter()
        .next()
        .ok_or_else(|| "No statements found in program".to_string())
}

fn first_statement_of_main(wrapped: &str) -> Result<Statement<()>, String> {
    match first_top_level(wrapped)? {
        TopLevelStatement::Function(function) => function
            .body
            .statements
            .into_iter()
            .next()
            .ok_or_else(|| "Empty function body".to_string()),
        _ => Err("Expected a function".to_string()),
    }
}

#[allow(dead_code)]
fn parse_expression(code: &str) -> Result<Expression<()>, String> {
    let wrapped = format!("fn main(): void {{ {}; }}", code);
    match first_statement_of_main(&wrapped)? {
        Statement::Expression(expr) => Ok(expr),
        _ => Err("Failed to extract expression from parsed result".to_string()),
    }
}

#[allow(dead_code)]
fn parse_statement(code: &str) -> Result<Statement<()>, String> {
    let wrapped = format!("fn main(): void {{ {} }}", code);
    first_statement_of_main(&wrapped)
}

#[allow(dead_code)]
fn parse_type_name(code: &str) -> Result<TypeName, String> {
    let wrapped = format!("declare x: {};", code);
    match first_top_level(&wrapped)? {
        TopLevelStatement::Declaration(declaration) => Ok(declaration.type_annotation),
        _ => Err("Failed to extract type name from parsed result".to_string()),
    }
}

#[allow(dead_code)]
fn parse_function(code: &str) -> Result<Function<()>, String> {
    match first_top_level(code)? {
        TopLevelStatement::Function(function) => Ok(function),
        _ => Err("Failed to extract function from parsed result".to_string()),
    }
}

#[allow(dead_code)]
fn parse_yielding_expression(code: &str) -> Result<Expression<()>, String> {
    let wrapped = format!("fn main(): void {{ {} }}", code);
    match first_statement_of_main(&wrapped)? {
        Statement::YieldingExpression(expr) => Ok(expr),
        _ => Err("Failed to extract yielding expression from parsed result".to_string()),
    }
}

#[allow(dead_code)]
fn parse_number(code: &str) -> Result<Num<()>, String> {
    match parse_expression(code)? {
        Expression::Num(num) => Ok(num),
        _ => Err("Expected number expression".to_string()),
    }
}

#[allow(dead_code)]
fn parse_id(code: &str) -> Result<Id<()>, String> {
    match parse_expression(code)? {
        Expression::Id(id) => Ok(id),
        _ => Err("Expected identifier expression".to_string()),
    }
}

#[allow(dead_code)]
fn parse_string(code: &str) -> Result<AstString<()>, String> {
    match parse_expression(code)? {
        Expression::AstString(string) => Ok(string),
        _ => Err("Expected string expression".to_string()),
    }
}

#[allow(dead_code)]
fn parse_array(code: &str) -> Result<Array<()>, String> {
    match parse_expression(code)? {
        Expression::Array(array) => Ok(array),
        _ => Err("Expected array expression".to_string()),
    }
}

#[allow(dead_code)]
fn parse_character(code: &str) -> Result<Character<()>, String> {
    match parse_expression(code)? {
        Expression::Character(character) => Ok(character),
        _ => Err("Expected character expression".to_string()),
    }
}

#[allow(dead_code)]
fn parse_if(code: &str) -> Result<If<()>, String> {
    match parse_expression(code)? {
        Expression::If(if_expr) => Ok(if_expr),
        _ => Err("Expected if expression".to_string()),
    }
}

#[allow(dead_code)]
fn parse_struct_init(code: &str) -> Result<StructInitialisation<()>, String> {
    match parse_expression(code)? {
        Expression::StructInitialisation(struct_init) => Ok(struct_init),
        _ => Err("Expected struct initialization expression".to_string()),
    }
}

#[allow(dead_code)]
fn parse_lambda(code: &str) -> Result<Lambda<()>, String> {
    match parse_expression(code)? {
        Expression::Lambda(lambda) => Ok(lambda),
        _ => Err("Expected lambda expression".to_string()),
    }
}

#[allow(dead_code)]
fn parse_declaration(code: &str) -> Result<Declaration<()>, String> {
    match first_top_level(code)? {
        TopLevelStatement::Declaration(declaration) => Ok(declaration),
        _ => Err("Failed to extract declaration from parsed result".to_string()),
    }
}

#[allow(dead_code)]
fn parse_initialization(code: &str) -> Result<Initialisation<()>, String> {
    let wrapped = format!("fn main(): void {{ {} }}", code);
    match first_statement_of_main(&wrapped)? {
        Statement::Initialization(init) => Ok(init),
        _ => Err("Failed to extract initialization from parsed result".to_string()),
    }
}

#[allow(dead_code)]
fn parse_assignment(code: &str) -> Result<Assignment<()>, String> {
    let wrapped = format!("fn main(): void {{ {}; }}", code);
    match first_statement_of_main(&wrapped)? {
        Statement::Assignment(assignment) => Ok(assignment),
        _ => Err("Failed to extract assignment from parsed result".to_string()),
    }
}

#[allow(dead_code)]
fn parse_block(code: &str) -> Result<Block<()>, String> {
    let wrapped = format!("fn test(): void {}", code);
    match first_top_level(&wrapped)? {
        TopLevelStatement::Function(function) => Ok(Block {
            statements: function.body.statements,
            info: (),
            position: Span::default(),
        }),
        _ => Err("Failed to extract block from parsed result".to_string()),
    }
}

#[allow(dead_code)]
fn parse_bool(code: &str) -> Result<Bool<()>, String> {
    match parse_expression(code)? {
        Expression::Bool(value) => Ok(value),
        _ => Err("Failed to extract boolean from parsed result".to_string()),
    }
}

#[allow(dead_code)]
fn unused_imports(_: BinaryExpression<()>, _: BinaryOperator, _: LValue<()>, _: Postfix<()>) {}

#[test]
    fn test_empty_array() {
        let result = parse_array("&[]").unwrap();
        match result {
            Array::Literal { values, .. } => {
                assert_eq!(values.len(), 0);
            }
            _ => panic!("Expected literal array"),
        }
    }

#[test]
    fn test_simple_literal() {
        let result = parse_array("&[42, 1337]").unwrap();
        match result {
            Array::Literal { values, .. } => {
                assert_eq!(values.len(), 2);
                assert!(matches!(
                    values[0],
                    Expression::Num(Num::Integer(42, (), _))
                ));
                assert!(matches!(
                    values[1],
                    Expression::Num(Num::Integer(1337, (), _))
                ));
            }
            _ => panic!("Expected literal array"),
        }
    }

#[test]
    fn test_single_element_array() {
        let result = parse_array("&[42]").unwrap();
        match result {
            Array::Literal { values, .. } => {
                assert_eq!(values.len(), 1);
                assert!(matches!(
                    values[0],
                    Expression::Num(Num::Integer(42, (), _))
                ));
            }
            _ => panic!("Expected literal array"),
        }
    }

#[test]
    fn test_mixed_expression_array() {
        let result = parse_array(r#"&[42, "hello", x]"#).unwrap();
        match result {
            Array::Literal { values, .. } => {
                assert_eq!(values.len(), 3);
                assert!(matches!(
                    values[0],
                    Expression::Num(Num::Integer(42, (), _))
                ));
                assert!(matches!(values[1], Expression::AstString(_)));
                assert!(matches!(values[2], Expression::Id(_)));
            }
            _ => panic!("Expected literal array"),
        }
    }

#[test]
    fn array_test_error_on_invalid_syntax() {
        // Test that invalid array formats fail gracefully
        assert!(parse_array("&[").is_err()); // Unclosed array
        assert!(parse_array("42, 43]").is_err()); // Missing open bracket
        assert!(parse_array("").is_err()); // Empty string
    }

#[test]
    fn block_test_empty_block() {
        let result = parse_block("{}").unwrap();
        assert_eq!(result.statements.len(), 0);
    }

#[test]
    fn test_block_with_single_statement() {
        let result = parse_block("{ 42; }").unwrap();
        assert_eq!(result.statements.len(), 1);
        assert!(matches!(
            result.statements[0],
            Statement::Expression(Expression::Num(Num::Integer(42, (), _)))
        ));
    }

#[test]
    fn test_block_with_yielding_expression() {
        let result = parse_block("{ 42 }").unwrap();
        assert_eq!(result.statements.len(), 1);
        assert!(matches!(
            result.statements[0],
            Statement::YieldingExpression(Expression::Num(Num::Integer(42, (), _)))
        ));
    }

#[test]
    fn test_block_with_variable_declaration() {
        let result = parse_block("{ let x: i32 = 42; }").unwrap();
        assert_eq!(result.statements.len(), 1);
        assert!(matches!(result.statements[0], Statement::Initialization(_)));
    }

#[test]
    fn test_complex_block() {
        let result = parse_block("{ let a: i32 = 42; a }").unwrap();
        assert_eq!(result.statements.len(), 2);
        assert!(matches!(result.statements[0], Statement::Initialization(_)));
        assert!(matches!(
            result.statements[1],
            Statement::YieldingExpression(_)
        ));
    }

#[test]
    fn test_block_with_multiple_statements() {
        let result = parse_block("{ let x: i32 = 1; let y: i32 = 2; x + y }").unwrap();
        assert_eq!(result.statements.len(), 3);
        assert!(matches!(result.statements[0], Statement::Initialization(_)));
        assert!(matches!(result.statements[1], Statement::Initialization(_)));
        assert!(matches!(
            result.statements[2],
            Statement::YieldingExpression(_)
        ));
    }

#[test]
    fn block_test_error_on_invalid_syntax() {
        // Test that invalid block formats fail gracefully
        assert!(parse_block("{").is_err()); // Unclosed block
        assert!(parse_block("").is_err()); // Empty string
    }

#[test]
    fn test_parse_true() {
        let result = parse_bool("true").unwrap();
        assert_eq!(result.value, true);
    }

#[test]
    fn test_parse_false() {
        let result = parse_bool("false").unwrap();
        assert_eq!(result.value, false);
    }

#[test]
    fn bool_test_error_on_invalid_syntax() {
        assert!(parse_bool("True").is_err()); // Wrong case
        assert!(parse_bool("FALSE").is_err()); // Wrong case
        assert!(parse_bool("").is_err()); // Empty string
    }

#[test]
    fn test_parse_simple_character() {
        let result = parse_character("'a'").unwrap();
        assert_eq!(result.character, 'a');
    }

#[test]
    fn test_parse_escaped_character() {
        let result = parse_character("'\t'").unwrap();
        assert_eq!(result.character, '\t');
    }

#[test]
    fn test_parse_newline_character() {
        let result = parse_character("'\n'").unwrap();
        assert_eq!(result.character, '\n');
    }

#[test]
    fn test_parse_carriage_return_character() {
        let result = parse_character("'\r'").unwrap();
        assert_eq!(result.character, '\r');
    }

#[test]
    fn character_test_error_on_invalid_syntax() {
        // Test that invalid character formats fail gracefully
        assert!(parse_character("'unclosed").is_err());
        assert!(parse_character("''").is_err()); // Empty character
        assert!(parse_character("").is_err()); // Empty string
    }

#[test]
    fn test_simple_function() {
        let result = parse_function("fn foo(): i32 {}").unwrap();
        assert_eq!(result.id.name, "foo");
        assert_eq!(result.parameters.len(), 0);
        assert!(matches!(result.return_type, TypeName::Literal(ref name, _) if name == "i32"));
        assert_eq!(result.body.statements.len(), 0);
    }

#[test]
    fn test_function_with_single_parameter() {
        let result = parse_function("fn add(x: i32): i32 { x }").unwrap();
        assert_eq!(result.id.name, "add");
        assert_eq!(result.parameters.len(), 1);
        assert_eq!(result.parameters[0].name.name, "x");
        assert!(
            matches!(result.parameters[0].type_annotation, TypeName::Literal(ref name, _) if name == "i32")
        );
        assert!(matches!(result.return_type, TypeName::Literal(ref name, _) if name == "i32"));
    }

#[test]
    fn test_function_with_multiple_parameters() {
        let result = parse_function("fn add(x: i32, y: i32): i32 { x + y }").unwrap();
        assert_eq!(result.id.name, "add");
        assert_eq!(result.parameters.len(), 2);

        assert_eq!(result.parameters[0].name.name, "x");
        assert!(
            matches!(result.parameters[0].type_annotation, TypeName::Literal(ref name, _) if name == "i32")
        );

        assert_eq!(result.parameters[1].name.name, "y");
        assert!(
            matches!(result.parameters[1].type_annotation, TypeName::Literal(ref name, _) if name == "i32")
        );

        assert!(matches!(result.return_type, TypeName::Literal(ref name, _) if name == "i32"));
    }

#[test]
    fn test_function_with_void_return() {
        let result = parse_function("fn main(): void {}").unwrap();
        assert_eq!(result.id.name, "main");
        assert!(matches!(result.return_type, TypeName::Literal(ref name, _) if name == "void"));
    }

#[test]
    fn test_function_with_body_statements() {
        let result = parse_function("fn test(): void { let x: i32 = 42; }").unwrap();
        assert_eq!(result.id.name, "test");
        assert_eq!(result.body.statements.len(), 1);
        assert!(matches!(result.body.statements[0], Statement::Initialization(_)));
    }

#[test]
    fn function_test_error_on_invalid_syntax() {
        // Test that invalid function formats fail gracefully
        assert!(parse_function("fn").is_err()); // Incomplete function
        assert!(parse_function("function foo() {}").is_err()); // Wrong keyword
        assert!(parse_function("").is_err()); // Empty string
    }

#[test]
    fn test_parse_simple_identifier() {
        let result = parse_id("some_id").unwrap();
        assert_eq!(result.name, "some_id");
    }

#[test]
    fn test_parse_underscore_identifier() {
        let result = parse_id("_private").unwrap();
        assert_eq!(result.name, "_private");
    }

#[test]
    fn test_parse_mixed_identifier() {
        let result = parse_id("variable_name123").unwrap();
        assert_eq!(result.name, "variable_name123");
    }

#[test]
    fn test_parse_single_letter() {
        let result = parse_id("x").unwrap();
        assert_eq!(result.name, "x");
    }

#[test]
    fn id_test_error_on_invalid_syntax() {
        // Test that invalid identifier formats fail gracefully
        assert!(parse_id("123invalid").is_err()); // Can't start with number
        assert!(parse_id("").is_err()); // Empty string
        assert!(parse_id("with-dash").is_err()); // Contains invalid character
    }

#[test]
    fn test_simple_if() {
        let result = parse_if("if (true) {}").unwrap();
        // assert!(matches!(*result.condition, Expression::Bool(_)));
        assert_eq!(result.then_block.statements.len(), 0);
        assert_eq!(result.else_block.statements.len(), 0);
    }

#[test]
    fn test_if_with_identifier_condition() {
        let result = parse_if("if (x) {}").unwrap();
        assert!(matches!(*result.condition, Expression::Id(_)));
        assert_eq!(result.then_block.statements.len(), 0);
        assert_eq!(result.else_block.statements.len(), 0);
    }

#[test]
    fn test_simple_if_else() {
        let result = parse_if("if (true) {} else {}").unwrap();
        // assert!(matches!(*result.condition, Expression::Bool(_)));
        assert_eq!(result.then_block.statements.len(), 0);
        assert_eq!(result.else_block.statements.len(), 0);
    }

#[test]
    fn test_if_with_statements() {
        let result = parse_if("if (true) { 42; }").unwrap();
        // assert!(matches!(*result.condition, Expression::Bool(_)));
        assert_eq!(result.then_block.statements.len(), 1);
        assert!(matches!(
            result.then_block.statements[0],
            Statement::Expression(_)
        ));
        assert_eq!(result.else_block.statements.len(), 0);
    }

#[test]
    fn test_if_else_with_statements() {
        let result = parse_if("if (true) { 42; } else { 1337; }").unwrap();
        // assert!(matches!(*result.condition, Expression::Bool(_)));
        assert_eq!(result.then_block.statements.len(), 1);
        assert!(matches!(
            result.then_block.statements[0],
            Statement::Expression(_)
        ));
        assert_eq!(result.else_block.statements.len(), 1);
        assert!(matches!(
            result.else_block.statements[0],
            Statement::Expression(_)
        ));
    }

#[test]
    fn test_if_with_yielding_expression() {
        let result = parse_if("if (true) { 42 }").unwrap();
        // assert!(matches!(*result.condition, Expression::Bool(_)));
        assert_eq!(result.then_block.statements.len(), 1);
        assert!(matches!(
            result.then_block.statements[0],
            Statement::YieldingExpression(_)
        ));
    }

#[test]
    fn if_expression_test_error_on_invalid_syntax() {
        // Test that invalid if formats fail gracefully
        assert!(parse_if("if").is_err()); // Incomplete if
        assert!(parse_if("if true {}").is_err()); // Missing parentheses
        assert!(parse_if("").is_err()); // Empty string
    }

#[test]
    fn test_simple_lambda() {
        let result = parse_lambda("\\() => 42").unwrap();

        assert_eq!(result.parameters.len(), 0);
        assert!(matches!(
            &*result.expression,
            Expression::Num(why_lib::parser::ast::Num::Integer(42, (), _))
        ));
    }

#[test]
    fn test_lambda_with_multiple_params() {
        let result = parse_lambda("\\(x, y) => x + y").unwrap();

        assert_eq!(result.parameters.len(), 2);
        assert_eq!(result.parameters[0].name.name, "x");
        assert_eq!(result.parameters[1].name.name, "y");

        if let Expression::Binary(binary) = &*result.expression {
            assert!(matches!(binary.operator, BinaryOperator::Add));
            assert!(matches!(&binary.left, Expression::Id(id) if id.name == "x"));
            assert!(matches!(&binary.right, Expression::Id(id) if id.name == "y"));
        } else {
            panic!("Expected binary expression");
        }
    }

#[test]
    fn test_lambda_with_single_param() {
        let result = parse_lambda("\\(x) => x").unwrap();

        assert_eq!(result.parameters.len(), 1);
        assert_eq!(result.parameters[0].name.name, "x");
        assert!(matches!(&*result.expression, Expression::Id(id) if id.name == "x"));
    }

#[test]
    fn test_lambda_with_block() {
        let result = parse_lambda("\\(x) => { x }").unwrap();

        assert_eq!(result.parameters.len(), 1);
        assert_eq!(result.parameters[0].name.name, "x");

        if let Expression::Block(block) = &*result.expression {
            assert_eq!(block.statements.len(), 1);
            assert!(matches!(
                block.statements[0],
                Statement::YieldingExpression(Expression::Id(ref id)) if id.name == "x"
            ));
        } else {
            panic!("Expected block expression");
        }
    }

#[test]
    fn test_complex_lambda_expression() {
        let result = parse_lambda("\\(a, b) => a * b + 1").unwrap();

        assert_eq!(result.parameters.len(), 2);
        assert_eq!(result.parameters[0].name.name, "a");
        assert_eq!(result.parameters[1].name.name, "b");

        // Should be a + (b * c) due to operator precedence
        if let Expression::Binary(binary) = &*result.expression {
            assert!(matches!(binary.operator, BinaryOperator::Add));
            // Left side should be a * b
            if let Expression::Binary(left_binary) = &binary.left {
                assert!(matches!(left_binary.operator, BinaryOperator::Multiply));
            }
            // Right side should be 1
            assert!(matches!(
                &binary.right,
                Expression::Num(why_lib::parser::ast::Num::Integer(1, (), _))
            ));
        } else {
            panic!("Expected binary expression");
        }
    }

#[test]
    fn test_parse_basic_expressions() {
        // Test identifier
        let result = parse_expression("some_id").unwrap();
        assert!(matches!(result, Expression::Id(ref id) if id.name == "some_id"));

        // Test number
        let result = parse_expression("42").unwrap();
        assert!(matches!(
            result,
            Expression::Num(why_lib::parser::ast::Num::Integer(42, (), _))
        ));

        // Test string
        let result = parse_expression("\"hello\"").unwrap();
        assert!(matches!(result, Expression::AstString(_)));
    }

#[test]
    fn test_parse_complex_expressions() {
        // Test binary expression
        let result = parse_expression("1 + 2").unwrap();
        if let Expression::Binary(binary) = result {
            assert!(matches!(binary.operator, BinaryOperator::Add));
        } else {
            panic!("Expected binary expression");
        }

        // Test function call
        let result = parse_expression("foo()").unwrap();
        assert!(matches!(result, Expression::Postfix(_)));

        // Test array literal
        let result = parse_expression("&[1, 2, 3]").unwrap();
        assert!(matches!(result, Expression::Array(_)));
    }

#[test]
    fn test_parse_integer() {
        let result = parse_number("42").unwrap();
        assert!(matches!(result, Num::Integer(42, (), _)));
    }

#[test]
    fn test_parse_floating_point() {
        let result = parse_number("1337.42").unwrap();
        assert!(matches!(result, Num::FloatingPoint(ref value, (), _) if (value.parse::<f64>().unwrap() - 1337.42).abs() < 0.01));
    }

#[test]
    fn test_parse_zero() {
        let result = parse_number("0").unwrap();
        assert!(matches!(result, Num::Integer(0, (), _)));
    }

#[test]
    fn test_parse_large_integer() {
        let result = parse_number("1000000").unwrap();
        assert!(matches!(result, Num::Integer(1000000, (), _)));
    }

#[test]
    fn num_test_error_on_invalid_syntax() {
        // Test that invalid number formats fail gracefully
        assert!(parse_number("abc").is_err());
        assert!(parse_number("").is_err());
    }

#[test]
    fn test_empty_struct_initialization() {
        let result = parse_struct_init("Point {}").unwrap();
        assert_eq!(result.id.name, "Point");
        assert_eq!(result.fields.len(), 0);
    }

#[test]
    fn test_struct_initialization_with_one_field() {
        let result = parse_struct_init("Point { x: 42 }").unwrap();
        assert_eq!(result.id.name, "Point");
        assert_eq!(result.fields.len(), 1);
        assert_eq!(result.fields[0].name.name, "x");
        assert!(matches!(
            result.fields[0].value,
            Expression::Num(Num::Integer(42, (), _))
        ));
    }

#[test]
    fn test_struct_initialization_with_multiple_fields() {
        let result = parse_struct_init("Point { x: 1, y: 2 }").unwrap();
        assert_eq!(result.id.name, "Point");
        assert_eq!(result.fields.len(), 2);

        assert_eq!(result.fields[0].name.name, "x");
        assert!(matches!(
            result.fields[0].value,
            Expression::Num(Num::Integer(1, (), _))
        ));

        assert_eq!(result.fields[1].name.name, "y");
        assert!(matches!(
            result.fields[1].value,
            Expression::Num(Num::Integer(2, (), _))
        ));
    }

#[test]
    fn test_struct_initialization_with_string_field() {
        let result = parse_struct_init(r#"Person { name: "Alice" }"#).unwrap();
        assert_eq!(result.id.name, "Person");
        assert_eq!(result.fields.len(), 1);
        assert_eq!(result.fields[0].name.name, "name");
        assert!(matches!(
            result.fields[0].value,
            Expression::AstString(AstString {
                ref value, ..
            })
            if value == "Alice"
        ));
    }

#[test]
    fn test_struct_initialization_with_mixed_fields() {
        let result = parse_struct_init(r#"Person { name: "Alice", age: 30 }"#).unwrap();
        assert_eq!(result.id.name, "Person");
        assert_eq!(result.fields.len(), 2);

        assert_eq!(result.fields[0].name.name, "name");
        assert!(matches!(
            result.fields[0].value,
            Expression::AstString(AstString {
                ref value, ..
            })
            if value == "Alice"
        ));

        assert_eq!(result.fields[1].name.name, "age");
        assert!(matches!(
            result.fields[1].value,
            Expression::Num(Num::Integer(30, (), _))
        ));
    }

#[test]
    fn struct_initialisation_test_error_on_invalid_syntax() {
        // Test that invalid struct initialization formats fail gracefully
        assert!(parse_struct_init("Point {").is_err()); // Unclosed struct
        assert!(parse_struct_init("Point { x }").is_err()); // Missing value
        assert!(parse_struct_init("").is_err()); // Empty string
    }

fn int_leaf(value: u64) -> Expression<()> {
    Expression::Num(Num::Integer(value, (), Span::default()))
}

fn binary_node(
    left: Expression<()>,
    right: Expression<()>,
    operator: BinaryOperator,
) -> BinaryExpression<()> {
    BinaryExpression { left, right, operator, info: (), position: Span::default() }
}


#[test]
fn test_simple_balance() {
        let testee = BinaryExpression {
            left: Expression::Num(Num::Integer(42, (), Span::default())),
            right: Expression::Binary(Box::new(BinaryExpression {
                left: Expression::Num(Num::Integer(1, (), Span::default())),
                right: Expression::Num(Num::Integer(2, (), Span::default())),
                operator: BinaryOperator::Add,
                info: (),
                position: Span::default(),
            })),
            operator: BinaryOperator::Multiply,
            info: (),
            position: Span::default(),
        };

        let expected = BinaryExpression {
            left: Expression::Binary(Box::new(BinaryExpression {
                left: Expression::Num(Num::Integer(42, (), Span::default())),
                right: Expression::Num(Num::Integer(1, (), Span::default())),
                operator: BinaryOperator::Multiply,
                info: (),
                position: Span::default(),
            })),
            right: Expression::Num(Num::Integer(2, (), Span::default())),
            operator: BinaryOperator::Add,
            info: (),
            position: Span::default(),
        };

        assert_eq!(expected, testee.balance());
    }

#[test]
fn test_unneeded_balance() {
        let testee = BinaryExpression {
            left: Expression::Binary(Box::new(BinaryExpression {
                left: Expression::Num(Num::Integer(42, (), Span::default())),
                right: Expression::Num(Num::Integer(1, (), Span::default())),
                operator: BinaryOperator::Multiply,
                info: (),
                position: Span::default(),
            })),
            right: Expression::Num(Num::Integer(2, (), Span::default())),
            operator: BinaryOperator::Add,
            info: (),
            position: Span::default(),
        };

        assert_eq!(testee, testee.balance());
    }

#[test]
fn test_balance_rotates_through_nested_left_operands() {
    // a * ((b == c) + d) becomes ((a * b) == c) + d
    let testee = binary_node(
        int_leaf(1),
        Expression::Binary(Box::new(binary_node(
            Expression::Binary(Box::new(binary_node(int_leaf(2), int_leaf(3), BinaryOperator::Equals))),
            int_leaf(4),
            BinaryOperator::Add,
        ))),
        BinaryOperator::Multiply,
    );
    let expected = binary_node(
        Expression::Binary(Box::new(binary_node(
            Expression::Binary(Box::new(binary_node(int_leaf(1), int_leaf(2), BinaryOperator::Multiply))),
            int_leaf(3),
            BinaryOperator::Equals,
        ))),
        int_leaf(4),
        BinaryOperator::Add,
    );
    assert_eq!(expected, testee.balance());
}

#[test]
fn test_balance_keeps_equal_precedence() {
    // a - (b + c) keeps its shape: the operators bind equally tightly
    let testee = binary_node(
        int_leaf(1),
        Expression::Binary(Box::new(binary_node(int_leaf(2), int_leaf(3), BinaryOperator::Add))),
        BinaryOperator::Substract,
    );
    assert_eq!(testee, testee.balance());
}

#[test]
fn test_binary_inner_copies_operands() {
    let testee = binary_node(int_leaf(7), int_leaf(8), BinaryOperator::Divide);
    assert_eq!((int_leaf(7), int_leaf(8)), testee.inner());
}
