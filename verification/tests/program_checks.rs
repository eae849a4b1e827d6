use why_lib::parser::program::parse_program;
use why_lib::typechecker::error::{InvalidMainSignature, MissingMainFunction, TypeCheckError};
use why_lib::typechecker::program::TypeChecker;
use why_lib::lexer::Span;
use why_lib::parser::ast::{Declaration, Id, TopLevelStatement, TypeName};
use why_lib::typechecker::context::Context;
use why_lib::typechecker::{TypeInformation, TypeValidationError};

fn check_source(source: &str) -> Result<usize, TypeCheckError> {
    let program = parse_program(source).expect("the program parses");
    TypeChecker::new(program).check().map(|checked| checked.len())
}

#[test]
fn test_program_with_void_main_checks() {
    assert_eq!(check_source("fn main(): void { }"), Ok(1));
}

#[test]
fn test_program_with_integer_main_checks() {
    assert_eq!(check_source("fn main(): i64 { 42 }"), Ok(1));
}

#[test]
fn test_program_without_main_is_rejected() {
    assert_eq!(
        check_source("fn helper(): void { }"),
        Err(TypeCheckError::MissingMainFunction(MissingMainFunction))
    );
}

#[test]
fn test_main_with_parameters_is_rejected() {
    assert_eq!(
        check_source("fn main(x: i64): void { }"),
        Err(TypeCheckError::InvalidMainSignature(InvalidMainSignature, Span::default()))
    );
}

#[test]
fn test_main_returning_a_string_is_rejected() {
    assert_eq!(
        check_source("fn main(): str { \"text\" }"),
        Err(TypeCheckError::InvalidMainSignature(InvalidMainSignature, Span::default()))
    );
}

#[test]
fn test_checked_program_validates() {
    let program = parse_program("fn main(): void { let x = 1; }").expect("the program parses");
    let checked = TypeChecker::new(program).check().expect("the program checks");
    assert!(TypeChecker::validate(checked).is_ok());
}

#[test]
fn test_whitespace_only_program_parses_to_nothing() {
    assert_eq!(parse_program("  \n\t").expect("the program parses").len(), 0);
}

#[test]
fn test_function_defined_twice_is_rejected() {
    assert!(matches!(
        check_source("fn main(): void { } fn main(): void { }"),
        Err(TypeCheckError::RedefinedFunction(_, _))
    ));
}

#[test]
fn test_constant_defined_twice_is_rejected() {
    assert!(matches!(
        check_source("const x: i64 = 1; const x: i64 = 2; fn main(): void { }"),
        Err(TypeCheckError::RedefinedConstant(_, _))
    ));
}

#[test]
fn test_method_defined_twice_is_rejected() {
    assert!(matches!(
        check_source(
            "struct Foo { x: i64; } instance Foo { fn bar(): void { } fn bar(): void { } } fn main(): void { }"
        ),
        Err(TypeCheckError::RedefinedMethod(_, _))
    ));
}

#[test]
fn test_struct_and_instance_program_checks() {
    assert_eq!(
        check_source("struct Foo { x: i64; } instance Foo { fn bar(): i64 { 1 } } fn main(): void { }"),
        Ok(3)
    );
}

#[test]
fn test_unknown_type_is_a_validation_error() {
    let position = Span { start: 3, end: 6 };
    let statement = TopLevelStatement::Declaration(Declaration {
        name: Id {
            name: "foo".to_string(),
            info: TypeInformation { type_id: None, context: Context::default() },
            position,
        },
        type_annotation: TypeName::Literal("i64".to_string(), Span::default()),
        info: TypeInformation {
            type_id: Some(why_lib::typechecker::types::Type::Void),
            context: Context::default(),
        },
        position: Span::default(),
    });
    assert_eq!(TypeChecker::validate(vec![statement]).unwrap_err(), TypeValidationError(position));
}

#[test]
fn test_plain_program_with_parameters_checks() {
    assert_eq!(
        check_source("// helpers\nfn one(x: i64, y: bool): i64 { 1 } fn main(): void { }"),
        Ok(3)
    );
}

#[test]
fn test_plain_top_level_forms_parse() {
    let program = parse_program(
        "const x: i64 = 1; declare y: i64; struct S { } fn main(): void { }",
    )
    .expect("the program parses");
    assert_eq!(program.len(), 4);
}
