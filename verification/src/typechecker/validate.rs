//! Validation of a checked syntax tree: every node must have a known type.
use vstd::prelude::*;

use crate::lexer::Span;
use crate::parser::ast::{
    Array, Assignment, AstString, BinaryExpression, Block, Bool, Character, Constant, Declaration,
    Expression, Function, FunctionParameter, Id, If, Initialisation, Instance, LValue, Lambda,
    LambdaParameter, MethodDeclaration, Num, Postfix, Prefix, Statement, StructDeclaration,
    StructFieldDeclaration, StructFieldInitialisation, StructInitialisation, TopLevelStatement,
    WhileLoop,
};
use crate::typechecker::{TypeInformation, TypeValidationError, ValidatedTypeInformation};

verus! {

/// Whether a node's type is known.
pub open spec fn known(info: TypeInformation) -> bool {
    info.type_id is Some
}

/// Whether every node of an expression has a known type.
pub open spec fn expression_typed(e: Expression<TypeInformation>) -> bool
    decreases e,
{
    match e {
        Expression::Id(id) => known(id.info),
        Expression::Num(n) => known(n.spec_info()),
        Expression::Bool(b) => known(b.info),
        Expression::Character(c) => known(c.info),
        Expression::AstString(s) => known(s.info),
        Expression::Function(f) => function_typed(f),
        Expression::Lambda(l) => (forall|i: int|
            0 <= i < l.parameters@.len() ==> known(#[trigger] l.parameters@[i].name.info) && known(
                l.parameters@[i].info,
            )) && expression_typed(*l.expression) && known(l.info),
        Expression::If(i) => expression_typed(*i.condition) && block_typed(i.then_block)
            && block_typed(i.else_block) && known(i.info),
        Expression::Block(b) => block_typed(b),
        Expression::Parens(inner) => expression_typed(*inner),
        Expression::Postfix(p) => postfix_typed(p),
        Expression::Prefix(Prefix::Negation { expr, .. }) => expression_typed(*expr),
        Expression::Prefix(Prefix::Minus { expr, .. }) => expression_typed(*expr),
        Expression::Binary(b) => expression_typed(b.left) && expression_typed(b.right) && known(
            b.info,
        ),
        Expression::Array(Array::Literal { values, info, .. }) => (forall|i: int|
            0 <= i < values@.len() ==> expression_typed(#[trigger] values@[i])) && known(info),
        Expression::Array(Array::Default { initial_value, length, info, .. }) => expression_typed(
            *initial_value,
        ) && known(length.spec_info()) && known(info),
        Expression::StructInitialisation(s) => (forall|i: int|
            0 <= i < s.fields@.len() ==> known(#[trigger] s.fields@[i].name.info)
                && expression_typed(s.fields@[i].value) && known(s.fields@[i].info)) && known(
            s.id.info,
        ) && known(s.info),
    }
}

/// Whether every node of a call, an index or a property access has a known type.
pub open spec fn postfix_typed(p: Postfix<TypeInformation>) -> bool
    decreases p,
{
    match p {
        Postfix::Call { expr, args, info, .. } => (forall|i: int|
            0 <= i < args@.len() ==> expression_typed(#[trigger] args@[i])) && expression_typed(
            *expr,
        ) && known(info),
        Postfix::Index { expr, index, info, .. } => expression_typed(*expr) && expression_typed(
            *index,
        ) && known(info),
        Postfix::PropertyAccess { expr, property, info, .. } => expression_typed(*expr) && known(
            property.info,
        ) && known(info),
    }
}

/// Whether every node of a block has a known type.
pub open spec fn block_typed(b: Block<TypeInformation>) -> bool
    decreases b,
{
    (forall|i: int| 0 <= i < b.statements@.len() ==> statement_typed(#[trigger] b.statements@[i]))
        && known(b.info)
}

/// Whether every node of a function has a known type.
pub open spec fn function_typed(f: Function<TypeInformation>) -> bool
    decreases f,
{
    (forall|i: int|
        0 <= i < f.parameters@.len() ==> known(#[trigger] f.parameters@[i].name.info) && known(
            f.parameters@[i].info,
        )) && known(f.id.info) && block_typed(f.body) && known(f.info)
}

/// Whether every node of a statement has a known type; a comment has none.
pub open spec fn statement_typed(s: Statement<TypeInformation>) -> bool
    decreases s,
{
    match s {
        Statement::Function(f) => function_typed(f),
        Statement::WhileLoop(w) => expression_typed(w.condition) && block_typed(w.block) && known(
            w.info,
        ),
        Statement::Initialization(i) => known(i.id.info) && expression_typed(i.value) && known(
            i.info,
        ),
        Statement::Constant(c) => known(c.id.info) && expression_typed(c.value) && known(c.info),
        Statement::Assignment(a) => (match a.lvalue {
            LValue::Id(id) => known(id.info),
            LValue::Postfix(p) => postfix_typed(p),
        }) && expression_typed(a.rvalue) && known(a.info),
        Statement::Expression(e) => expression_typed(e),
        Statement::YieldingExpression(e) => expression_typed(e),
        Statement::Return(e) => expression_typed(e),
        Statement::Comment(_) => true,
        Statement::Declaration(d) => known(d.name.info) && known(d.info),
        Statement::StructDeclaration(d) => (forall|i: int|
            0 <= i < d.fields@.len() ==> known(#[trigger] d.fields@[i].name.info) && known(
                d.fields@[i].info,
            )) && known(d.id.info) && known(d.info),
    }
}

/// Whether every node of a top level statement has a known type; a comment has none.
pub open spec fn top_level_typed(s: TopLevelStatement<TypeInformation>) -> bool {
    match s {
        TopLevelStatement::Comment(_) => true,
        TopLevelStatement::Function(f) => function_typed(f),
        TopLevelStatement::Constant(c) => statement_typed(Statement::Constant(c)),
        TopLevelStatement::Declaration(d) => statement_typed(Statement::Declaration(d)),
        TopLevelStatement::StructDeclaration(d) => statement_typed(Statement::StructDeclaration(d)),
        TopLevelStatement::Instance(i) => (forall|k: int|
            0 <= k < i.functions@.len() ==> function_typed(#[trigger] i.functions@[k])) && (forall|
            k: int,
        |
            0 <= k < i.declarations@.len() ==> known(#[trigger] i.declarations@[k].id.info) && known(
                i.declarations@[k].info,
            )) && known(i.info),
    }
}

/// Validate an identifier.
pub fn validate_id(id: Id<TypeInformation>) -> (r: Result<Id<ValidatedTypeInformation>, TypeValidationError>)
    ensures
        id.info.type_id is None <==> r is Err,
        r matches Err(e) ==> e.0 == id.position,
        r matches Ok(v) ==> v.name == id.name && v.position == id.position && v.info.type_id
            == id.info.type_id.unwrap(),
{
    let Id { name, info, position } = id;
    Ok(Id { name, info: info.validate(&position)?, position })
}

fn validate_num(n: Num<TypeInformation>) -> (r: Result<Num<ValidatedTypeInformation>, TypeValidationError>)
    ensures
        r is Ok <==> known(n.spec_info()),
{
    match n {
        Num::Integer(v, info, p) => Ok(Num::Integer(v, info.validate(&p)?, p)),
        Num::FloatingPoint(v, info, p) => Ok(Num::FloatingPoint(v, info.validate(&p)?, p)),
    }
}

#[verifier::loop_isolation(false)]
fn validate_expressions(values: Vec<Expression<TypeInformation>>) -> (r: Result<
    Vec<Expression<ValidatedTypeInformation>>,
    TypeValidationError,
>)
    ensures
        r matches Ok(v) ==> v@.len() == values@.len(),
        r is Ok <==> forall|i: int| 0 <= i < values@.len() ==> expression_typed(#[trigger] values@[i]),
    decreases values,
{
    let ghost orig = values@;
    let mut rest = values;
    let mut out: Vec<Expression<ValidatedTypeInformation>> = Vec::new();
    let ghost mut k: int = 0;
    while rest.len() > 0
        invariant
            0 <= k <= orig.len(),
            rest@ == orig.skip(k),
            out@.len() == k,
            forall|i: int| 0 <= i < k ==> expression_typed(#[trigger] orig[i]),
        decreases rest.len(),
    {
        let item = rest.remove(0);
        proof {
            assert(item == orig[k]);
            assert(decreases_to!(values => orig[k]));
        }
        let validated = match validate_expression(item) {
            Ok(v) => v,
            Err(e) => {
                proof {
                    assert(!expression_typed(values@[k]));
                }
                return Err(e);
            },
        };
        out.push(validated);
        proof {
            assert(rest@ =~= orig.skip(k + 1));
            k = k + 1;
        }
    }
    Ok(out)
}

#[verifier::loop_isolation(false)]
fn validate_statements(statements: Vec<Statement<TypeInformation>>) -> (r: Result<
    Vec<Statement<ValidatedTypeInformation>>,
    TypeValidationError,
>)
    ensures
        r matches Ok(v) ==> v@.len() == statements@.len(),
        r is Ok <==> forall|i: int|
            0 <= i < statements@.len() ==> statement_typed(#[trigger] statements@[i]),
    decreases statements,
{
    let ghost orig = statements@;
    let mut rest = statements;
    let mut out: Vec<Statement<ValidatedTypeInformation>> = Vec::new();
    let ghost mut k: int = 0;
    while rest.len() > 0
        invariant
            0 <= k <= orig.len(),
            rest@ == orig.skip(k),
            out@.len() == k,
            forall|i: int| 0 <= i < k ==> statement_typed(#[trigger] orig[i]),
        decreases rest.len(),
    {
        let item = rest.remove(0);
        proof {
            assert(item == orig[k]);
            assert(decreases_to!(statements => orig[k]));
        }
        let validated = match validate_statement(item) {
            Ok(v) => v,
            Err(e) => {
                proof {
                    assert(!statement_typed(statements@[k]));
                }
                return Err(e);
            },
        };
        out.push(validated);
        proof {
            assert(rest@ =~= orig.skip(k + 1));
            k = k + 1;
        }
    }
    Ok(out)
}

/// Validate a block: its statements, then the block itself.
pub fn validate_block(b: Block<TypeInformation>) -> (r: Result<
    Block<ValidatedTypeInformation>,
    TypeValidationError,
>)
    ensures
        r matches Ok(v) ==> v.position == b.position && v.statements@.len() == b.statements@.len(),
        r is Ok <==> block_typed(b),
    decreases b,
{
    let Block { statements, info, position } = b;
    let statements = validate_statements(statements)?;
    Ok(Block { statements, info: info.validate(&position)?, position })
}

/// Validate a function: its parameters, its name, its body, then the function itself.
#[verifier::loop_isolation(false)]
pub fn validate_function(f: Function<TypeInformation>) -> (r: Result<
    Function<ValidatedTypeInformation>,
    TypeValidationError,
>)
    ensures
        r matches Ok(v) ==> v.position == f.position && v.parameters@.len() == f.parameters@.len(),
        r is Ok <==> function_typed(f),
    decreases f,
{
    let Function { id, parameters, return_type, body, info, position } = f;
    let ghost orig = parameters@;
    let mut validated: Vec<FunctionParameter<ValidatedTypeInformation>> = Vec::new();
    let mut rest = parameters;
    while rest.len() > 0
        invariant
            orig == f.parameters@,
            validated@.len() <= orig.len(),
            rest@ == orig.skip(validated@.len() as int),
            forall|i: int|
                0 <= i < validated@.len() ==> known(#[trigger] orig[i].name.info) && known(
                    orig[i].info,
                ),
        decreases rest.len(),
    {
        let ghost k = validated@.len() as int;
        let p = rest.remove(0);
        proof {
            assert(p == orig[k]);
            assert(rest@ =~= orig.skip(k + 1));
            assert(known(f.parameters@[k].name.info) == p.name.info.type_id is Some);
        }
        let FunctionParameter { name, type_annotation, info, position } = p;
        let name = validate_id(name)?;
        validated.push(
            FunctionParameter { name, type_annotation, info: info.validate(&position)?, position },
        );
    }
    let id = validate_id(id)?;
    let body = validate_block(body)?;
    Ok(
        Function {
            id,
            parameters: validated,
            return_type,
            body,
            info: info.validate(&position)?,
            position,
        },
    )
}

fn validate_postfix(p: Postfix<TypeInformation>) -> (r: Result<
    Postfix<ValidatedTypeInformation>,
    TypeValidationError,
>)
    ensures
        r is Ok <==> postfix_typed(p),
    decreases p,
{
    match p {
        Postfix::Call { expr, args, info, position } => {
            let args = validate_expressions(args)?;
            let expr = validate_expression(*expr)?;
            Ok(
                Postfix::Call {
                    expr: Box::new(expr),
                    args,
                    info: info.validate(&position)?,
                    position,
                },
            )
        },
        Postfix::Index { expr, index, info, position } => {
            let expr = validate_expression(*expr)?;
            let index = validate_expression(*index)?;
            Ok(
                Postfix::Index {
                    expr: Box::new(expr),
                    index: Box::new(index),
                    info: info.validate(&position)?,
                    position,
                },
            )
        },
        Postfix::PropertyAccess { expr, property, info, position } => {
            let expr = validate_expression(*expr)?;
            let property = validate_id(property)?;
            Ok(
                Postfix::PropertyAccess {
                    expr: Box::new(expr),
                    property,
                    info: info.validate(&position)?,
                    position,
                },
            )
        },
    }
}

/// Validate an expression and everything in it.
#[verifier::loop_isolation(false)]
pub fn validate_expression(e: Expression<TypeInformation>) -> (r: Result<
    Expression<ValidatedTypeInformation>,
    TypeValidationError,
>)
    ensures
        r is Ok <==> expression_typed(e),
    decreases e,
{
    match e {
        Expression::Id(id) => Ok(Expression::Id(validate_id(id)?)),
        Expression::Num(n) => Ok(Expression::Num(validate_num(n)?)),
        Expression::Bool(b) => {
            let Bool { value, position, info } = b;
            Ok(Expression::Bool(Bool { value, position, info: info.validate(&position)? }))
        },
        Expression::Character(c) => {
            let Character { character, position, info } = c;
            Ok(
                Expression::Character(
                    Character { character, position, info: info.validate(&position)? },
                ),
            )
        },
        Expression::AstString(s) => {
            let AstString { value, info, position } = s;
            Ok(Expression::AstString(AstString { value, info: info.validate(&position)?, position }))
        },
        Expression::Function(f) => Ok(Expression::Function(validate_function(f)?)),
        Expression::Lambda(l) => {
            let Lambda { parameters, expression, info, position } = l;
            let ghost orig = parameters@;
            let mut validated: Vec<LambdaParameter<ValidatedTypeInformation>> = Vec::new();
            let mut rest = parameters;
            while rest.len() > 0
                invariant
                    validated@.len() <= orig.len(),
                    rest@ == orig.skip(validated@.len() as int),
                    forall|i: int|
                        0 <= i < validated@.len() ==> known(#[trigger] orig[i].name.info) && known(
                            orig[i].info,
                        ),
                decreases rest.len(),
            {
                let ghost k = validated@.len() as int;
                let p = rest.remove(0);
                proof {
                    assert(p == orig[k]);
                    assert(rest@ =~= orig.skip(k + 1));
                    assert(known(orig[k].name.info) == p.name.info.type_id is Some);
                }
                let LambdaParameter { name, info, position } = p;
                let name = validate_id(name)?;
                validated.push(LambdaParameter { name, info: info.validate(&position)?, position });
            }
            let expression = validate_expression(*expression)?;
            Ok(
                Expression::Lambda(
                    Lambda {
                        parameters: validated,
                        expression: Box::new(expression),
                        info: info.validate(&position)?,
                        position,
                    },
                ),
            )
        },
        Expression::If(i) => {
            let If { condition, then_block, else_block, info, position } = i;
            let condition = validate_expression(*condition)?;
            let then_block = validate_block(then_block)?;
            let else_block = validate_block(else_block)?;
            Ok(
                Expression::If(
                    If {
                        condition: Box::new(condition),
                        then_block,
                        else_block,
                        info: info.validate(&position)?,
                        position,
                    },
                ),
            )
        },
        Expression::Block(b) => Ok(Expression::Block(validate_block(b)?)),
        Expression::Parens(inner) => Ok(Expression::Parens(Box::new(validate_expression(*inner)?))),
        Expression::Postfix(p) => Ok(Expression::Postfix(validate_postfix(p)?)),
        Expression::Prefix(Prefix::Negation { expr, position }) => Ok(
            Expression::Prefix(
                Prefix::Negation { expr: Box::new(validate_expression(*expr)?), position },
            ),
        ),
        Expression::Prefix(Prefix::Minus { expr, position }) => Ok(
            Expression::Prefix(
                Prefix::Minus { expr: Box::new(validate_expression(*expr)?), position },
            ),
        ),
        Expression::Binary(b) => {
            let BinaryExpression { left, right, operator, info, position } = *b;
            let left = validate_expression(left)?;
            let right = validate_expression(right)?;
            Ok(
                Expression::Binary(
                    Box::new(
                        BinaryExpression {
                            left,
                            right,
                            operator,
                            info: info.validate(&position)?,
                            position,
                        },
                    ),
                ),
            )
        },
        Expression::Array(Array::Literal { values, info, position }) => {
            let values = validate_expressions(values)?;
            Ok(
                Expression::Array(
                    Array::Literal { values, info: info.validate(&position)?, position },
                ),
            )
        },
        Expression::Array(Array::Default { initial_value, length, info, position }) => {
            let initial_value = validate_expression(*initial_value)?;
            let length = validate_num(length)?;
            Ok(
                Expression::Array(
                    Array::Default {
                        initial_value: Box::new(initial_value),
                        length,
                        info: info.validate(&position)?,
                        position,
                    },
                ),
            )
        },
        Expression::StructInitialisation(s) => {
            let StructInitialisation { id, fields, info, position } = s;
            let ghost orig = fields@;
            let mut validated: Vec<StructFieldInitialisation<ValidatedTypeInformation>> = Vec::new();
            let mut rest = fields;
            let ghost mut k: int = 0;
            while rest.len() > 0
                invariant
                    0 <= k <= orig.len(),
                    rest@ == orig.skip(k),
                    forall|i: int|
                        0 <= i < k ==> known(#[trigger] orig[i].name.info) && expression_typed(
                            orig[i].value,
                        ) && known(orig[i].info),
                decreases rest.len(),
            {
                let f = rest.remove(0);
                proof {
                    assert(f == orig[k]);
                    assert(decreases_to!(fields => orig[k]));
                    assert(decreases_to!(orig[k] => orig[k].value));
                }
                let StructFieldInitialisation { name, value, info, position } = f;
                let name = validate_id(name)?;
                let value = validate_expression(value)?;
                validated.push(
                    StructFieldInitialisation { name, value, info: info.validate(&position)?, position },
                );
                proof {
                    assert(rest@ =~= orig.skip(k + 1));
                    k = k + 1;
                }
            }
            let id = validate_id(id)?;
            Ok(
                Expression::StructInitialisation(
                    StructInitialisation {
                        id,
                        fields: validated,
                        info: info.validate(&position)?,
                        position,
                    },
                ),
            )
        },
    }
}

fn validate_struct_declaration(d: StructDeclaration<TypeInformation>) -> (r: Result<
    StructDeclaration<ValidatedTypeInformation>,
    TypeValidationError,
>)
    ensures
        r is Ok <==> statement_typed(Statement::StructDeclaration(d)),
{
    let StructDeclaration { id, fields, info, position } = d;
    let ghost orig = fields@;
    let mut validated: Vec<StructFieldDeclaration<ValidatedTypeInformation>> = Vec::new();
    let mut rest = fields;
    while rest.len() > 0
        invariant
            orig == d.fields@,
            validated@.len() <= orig.len(),
            rest@ == orig.skip(validated@.len() as int),
            forall|i: int|
                0 <= i < validated@.len() ==> known(#[trigger] orig[i].name.info) && known(
                    orig[i].info,
                ),
        decreases rest.len(),
    {
        let ghost k = validated@.len() as int;
        let f = rest.remove(0);
        proof {
            assert(f == orig[k]);
            assert(rest@ =~= orig.skip(k + 1));
            assert(known(d.fields@[k].name.info) == f.name.info.type_id is Some);
        }
        let StructFieldDeclaration { name, type_annotation, info, position } = f;
        let name = validate_id(name)?;
        validated.push(
            StructFieldDeclaration { name, type_annotation, info: info.validate(&position)?, position },
        );
    }
    let id = validate_id(id)?;
    Ok(StructDeclaration { id, fields: validated, info: info.validate(&position)?, position })
}

fn validate_declaration(d: Declaration<TypeInformation>) -> (r: Result<
    Declaration<ValidatedTypeInformation>,
    TypeValidationError,
>)
    ensures
        r is Ok <==> statement_typed(Statement::Declaration(d)),
{
    let Declaration { name, type_annotation, info, position } = d;
    let name = validate_id(name)?;
    Ok(Declaration { name, type_annotation, info: info.validate(&position)?, position })
}

fn validate_constant(c: Constant<TypeInformation>) -> (r: Result<
    Constant<ValidatedTypeInformation>,
    TypeValidationError,
>)
    ensures
        r is Ok <==> statement_typed(Statement::Constant(c)),
    decreases c,
{
    let Constant { id, type_annotation, value, info, position } = c;
    let id = validate_id(id)?;
    let value = validate_expression(value)?;
    Ok(Constant { id, type_annotation, value, info: info.validate(&position)?, position })
}

/// Validate a statement and everything in it.
pub fn validate_statement(s: Statement<TypeInformation>) -> (r: Result<
    Statement<ValidatedTypeInformation>,
    TypeValidationError,
>)
    ensures
        r matches Ok(v) ==> (v is Comment <==> s is Comment),
        r is Ok <==> statement_typed(s),
    decreases s,
{
    match s {
        Statement::Function(f) => Ok(Statement::Function(validate_function(f)?)),
        Statement::WhileLoop(w) => {
            let WhileLoop { condition, block, info, position } = w;
            let condition = validate_expression(condition)?;
            let block = validate_block(block)?;
            Ok(
                Statement::WhileLoop(
                    WhileLoop { condition, block, info: info.validate(&position)?, position },
                ),
            )
        },
        Statement::Initialization(i) => {
            let Initialisation { id, mutable, type_annotation, value, info, position } = i;
            let id = validate_id(id)?;
            let value = validate_expression(value)?;
            Ok(
                Statement::Initialization(
                    Initialisation {
                        id,
                        mutable,
                        type_annotation,
                        value,
                        info: info.validate(&position)?,
                        position,
                    },
                ),
            )
        },
        Statement::Constant(c) => Ok(Statement::Constant(validate_constant(c)?)),
        Statement::Assignment(a) => {
            let Assignment { lvalue, rvalue, info, position } = a;
            let lvalue = match lvalue {
                LValue::Id(id) => LValue::Id(validate_id(id)?),
                LValue::Postfix(p) => LValue::Postfix(validate_postfix(p)?),
            };
            let rvalue = validate_expression(rvalue)?;
            Ok(
                Statement::Assignment(
                    Assignment { lvalue, rvalue, info: info.validate(&position)?, position },
                ),
            )
        },
        Statement::Expression(e) => Ok(Statement::Expression(validate_expression(e)?)),
        Statement::YieldingExpression(e) => Ok(
            Statement::YieldingExpression(validate_expression(e)?),
        ),
        Statement::Return(e) => Ok(Statement::Return(validate_expression(e)?)),
        Statement::Comment(c) => Ok(Statement::Comment(c)),
        Statement::Declaration(d) => Ok(Statement::Declaration(validate_declaration(d)?)),
        Statement::StructDeclaration(d) => Ok(
            Statement::StructDeclaration(validate_struct_declaration(d)?),
        ),
    }
}

/// Validate a top level statement and everything in it.
pub fn validate_top_level(s: TopLevelStatement<TypeInformation>) -> (r: Result<
    TopLevelStatement<ValidatedTypeInformation>,
    TypeValidationError,
>)
    ensures
        r matches Ok(v) ==> (v is Comment <==> s is Comment),
        r is Ok <==> top_level_typed(s),
{
    match s {
        TopLevelStatement::Comment(c) => Ok(TopLevelStatement::Comment(c)),
        TopLevelStatement::Function(f) => Ok(TopLevelStatement::Function(validate_function(f)?)),
        TopLevelStatement::Constant(c) => Ok(TopLevelStatement::Constant(validate_constant(c)?)),
        TopLevelStatement::Declaration(d) => Ok(
            TopLevelStatement::Declaration(validate_declaration(d)?),
        ),
        TopLevelStatement::StructDeclaration(d) => Ok(
            TopLevelStatement::StructDeclaration(validate_struct_declaration(d)?),
        ),
        TopLevelStatement::Instance(i) => {
            let Instance { name, functions, declarations, info, position } = i;
            let ghost orig_functions = functions@;
            let mut validated_functions: Vec<Function<ValidatedTypeInformation>> = Vec::new();
            let mut rest = functions;
            while rest.len() > 0
                invariant
                    s == TopLevelStatement::Instance(i),
                    orig_functions == i.functions@,
                    validated_functions@.len() <= orig_functions.len(),
                    rest@ == orig_functions.skip(validated_functions@.len() as int),
                    forall|k: int|
                        0 <= k < validated_functions@.len() ==> function_typed(
                            #[trigger] orig_functions[k],
                        ),
                decreases rest.len(),
            {
                let ghost k = validated_functions@.len() as int;
                let f = rest.remove(0);
                proof {
                    assert(f == orig_functions[k]);
                    assert(rest@ =~= orig_functions.skip(k + 1));
                    assert(function_typed(i.functions@[k]) == function_typed(f));
                }
                validated_functions.push(validate_function(f)?);
            }
            let ghost orig_declarations = declarations@;
            let mut validated_declarations: Vec<MethodDeclaration<ValidatedTypeInformation>> = Vec::new();
            let mut rest = declarations;
            while rest.len() > 0
                invariant
                    s == TopLevelStatement::Instance(i),
                    orig_functions == i.functions@,
                    orig_declarations == i.declarations@,
                    validated_declarations@.len() <= orig_declarations.len(),
                    rest@ == orig_declarations.skip(validated_declarations@.len() as int),
                    forall|k: int|
                        0 <= k < validated_declarations@.len() ==> known(
                            #[trigger] orig_declarations[k].id.info,
                        ) && known(orig_declarations[k].info),
                    forall|k: int|
                        0 <= k < orig_functions.len() ==> function_typed(#[trigger] orig_functions[k]),
                decreases rest.len(),
            {
                let ghost k = validated_declarations@.len() as int;
                let d = rest.remove(0);
                proof {
                    assert(d == orig_declarations[k]);
                    assert(rest@ =~= orig_declarations.skip(k + 1));
                    assert(known(i.declarations@[k].id.info) == d.id.info.type_id is Some);
                }
                let MethodDeclaration { id, parameter_types, return_type, info, position } = d;
                let id = validate_id(id)?;
                validated_declarations.push(
                    MethodDeclaration {
                        id,
                        parameter_types,
                        return_type,
                        info: info.validate(&position)?,
                        position,
                    },
                );
            }
            Ok(
                TopLevelStatement::Instance(
                    Instance {
                        name,
                        functions: validated_functions,
                        declarations: validated_declarations,
                        info: info.validate(&position)?,
                        position,
                    },
                ),
            )
        },
    }
}

/// Validate every checked statement of a program, in order.
pub fn validate_program(statements: Vec<TopLevelStatement<TypeInformation>>) -> (r: Result<
    Vec<TopLevelStatement<ValidatedTypeInformation>>,
    TypeValidationError,
>)
    ensures
        r matches Ok(v) ==> v@.len() == statements@.len(),
        r is Ok <==> forall|i: int|
            0 <= i < statements@.len() ==> top_level_typed(#[trigger] statements@[i]),
{
    let ghost orig = statements@;
    let mut out: Vec<TopLevelStatement<ValidatedTypeInformation>> = Vec::new();
    let mut rest = statements;
    while rest.len() > 0
        invariant
            orig == statements@,
            out@.len() <= orig.len(),
            rest@ == orig.skip(out@.len() as int),
            forall|i: int| 0 <= i < out@.len() ==> top_level_typed(#[trigger] orig[i]),
        decreases rest.len(),
    {
        let ghost k = out@.len() as int;
        let s = rest.remove(0);
        proof {
            assert(s == orig[k]);
            assert(rest@ =~= orig.skip(k + 1));
        }
        let validated = match validate_top_level(s) {
            Ok(v) => v,
            Err(e) => {
                proof {
                    assert(!top_level_typed(statements@[k]));
                }
                return Err(e);
            },
        };
        out.push(validated);
    }
    Ok(out)
}

} // verus!
