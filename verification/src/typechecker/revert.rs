//! Forgetting the information attached to the nodes of a syntax tree: a copy of the tree with
//! `()` in place of every node's information.
use vstd::prelude::*;

use crate::parser::ast::{
    Array, Assignment, AstString, BinaryExpression, Block, Bool, Character, Constant, Declaration,
    Expression, Function, FunctionParameter, Id, If, Initialisation, LValue, Lambda,
    LambdaParameter, Num, Postfix, Prefix, Statement, StructDeclaration, StructFieldDeclaration,
    StructFieldInitialisation, StructInitialisation, WhileLoop,
};

verus! {

/// `r` is the identifier `a` without its information.
pub open spec fn reverted_id<T>(a: Id<T>, r: Id<()>) -> bool {
    r.name@ == a.name@ && r.position == a.position
}

/// `r` is the number `a` without its information.
pub open spec fn reverted_num<T>(a: Num<T>, r: Num<()>) -> bool {
    match a {
        Num::Integer(v, _, p) => r matches Num::Integer(w, _, q) && w == v && q == p,
        Num::FloatingPoint(v, _, p) => r matches Num::FloatingPoint(w, _, q) && w@ == v@ && q == p,
    }
}

/// `r` is the expression `a` without the information of any of its nodes.
pub open spec fn reverted_expression<T>(a: Expression<T>, r: Expression<()>) -> bool
    decreases a,
{
    match a {
        Expression::Id(x) => r matches Expression::Id(y) && reverted_id(x, y),
        Expression::Num(x) => r matches Expression::Num(y) && reverted_num(x, y),
        Expression::Bool(x) => r matches Expression::Bool(y) && y.value == x.value
            && y.position == x.position,
        Expression::Character(x) => r matches Expression::Character(y) && y.character
            == x.character && y.position == x.position,
        Expression::AstString(x) => r matches Expression::AstString(y) && y.value@ == x.value@
            && y.position == x.position,
        Expression::Function(x) => r matches Expression::Function(y) && reverted_function(x, y),
        Expression::Lambda(x) => r matches Expression::Lambda(y) && y.position == x.position
            && y.parameters.len() == x.parameters.len() && (forall|i: int|
            0 <= i < x.parameters.len() ==> reverted_id(x.parameters@[i].name, y.parameters@[i].name)
                && y.parameters@[i].position == x.parameters@[i].position)
            && reverted_expression(*x.expression, *y.expression),
        Expression::If(x) => r matches Expression::If(y) && y.position == x.position
            && reverted_expression(*x.condition, *y.condition)
            && reverted_block(x.then_block, y.then_block)
            && reverted_block(x.else_block, y.else_block),
        Expression::Block(x) => r matches Expression::Block(y) && reverted_block(x, y),
        Expression::Parens(x) => r matches Expression::Parens(y) && reverted_expression(*x, *y),
        Expression::Postfix(x) => r matches Expression::Postfix(y) && reverted_postfix(x, y),
        Expression::Prefix(Prefix::Negation { expr, position }) => r matches Expression::Prefix(
            Prefix::Negation { expr: e2, position: p2 },
        ) && p2 == position && reverted_expression(*expr, *e2),
        Expression::Prefix(Prefix::Minus { expr, position }) => r matches Expression::Prefix(
            Prefix::Minus { expr: e2, position: p2 },
        ) && p2 == position && reverted_expression(*expr, *e2),
        Expression::Binary(x) => r matches Expression::Binary(y) && y.operator == x.operator
            && y.position == x.position && reverted_expression(x.left, y.left)
            && reverted_expression(x.right, y.right),
        Expression::Array(Array::Literal { values, position, .. }) => r matches Expression::Array(
            Array::Literal { values: v2, position: p2, .. },
        ) && p2 == position && v2.len() == values.len() && (forall|i: int|
            0 <= i < values.len() ==> reverted_expression(values@[i], v2@[i])),
        Expression::Array(Array::Default { initial_value, length, position, .. }) => r matches Expression::Array(
            Array::Default { initial_value: i2, length: l2, position: p2, .. },
        ) && p2 == position && reverted_num(length, l2) && reverted_expression(
            *initial_value,
            *i2,
        ),
        Expression::StructInitialisation(x) => r matches Expression::StructInitialisation(y)
            && y.position == x.position && reverted_id(x.id, y.id) && y.fields.len()
            == x.fields.len() && (forall|i: int|
            0 <= i < x.fields.len() ==> reverted_id(x.fields@[i].name, y.fields@[i].name)
                && y.fields@[i].position == x.fields@[i].position && reverted_expression(
                x.fields@[i].value,
                y.fields@[i].value,
            )),
    }
}

/// `r` is the postfix expression `a` without the information of any of its nodes.
pub open spec fn reverted_postfix<T>(a: Postfix<T>, r: Postfix<()>) -> bool
    decreases a,
{
    match a {
        Postfix::Call { expr, args, position, .. } => r matches Postfix::Call {
            expr: e2,
            args: a2,
            position: p2,
            ..
        } && p2 == position && reverted_expression(*expr, *e2) && a2.len() == args.len() && (
        forall|i: int| 0 <= i < args.len() ==> reverted_expression(args@[i], a2@[i])),
        Postfix::Index { expr, index, position, .. } => r matches Postfix::Index {
            expr: e2,
            index: i2,
            position: p2,
            ..
        } && p2 == position && reverted_expression(*expr, *e2) && reverted_expression(
            *index,
            *i2,
        ),
        Postfix::PropertyAccess { expr, property, position, .. } => r matches Postfix::PropertyAccess {
            expr: e2,
            property: q2,
            position: p2,
            ..
        } && p2 == position && reverted_expression(*expr, *e2) && reverted_id(property, q2),
    }
}

/// `r` is the block `a` without the information of any of its nodes.
pub open spec fn reverted_block<T>(a: Block<T>, r: Block<()>) -> bool
    decreases a,
{
    r.position == a.position && r.statements.len() == a.statements.len() && (forall|i: int|
        0 <= i < a.statements.len() ==> reverted_statement(a.statements@[i], r.statements@[i]))
}

/// `r` is the function `a` without the information of any of its nodes.
pub open spec fn reverted_function<T>(a: Function<T>, r: Function<()>) -> bool
    decreases a,
{
    &&& reverted_id(a.id, r.id)
    &&& r.parameters.len() == a.parameters.len()
    &&& forall|i: int|
        0 <= i < a.parameters.len() ==> reverted_id(a.parameters@[i].name, r.parameters@[i].name)
            && r.parameters@[i].type_annotation@ == a.parameters@[i].type_annotation@
            && r.parameters@[i].position == a.parameters@[i].position
    &&& r.return_type@ == a.return_type@
    &&& reverted_block(a.body, r.body)
    &&& r.position == a.position
}

/// `r` is the statement `a` without the information of any of its nodes.
pub open spec fn reverted_statement<T>(a: Statement<T>, r: Statement<()>) -> bool
    decreases a,
{
    match a {
        Statement::Function(x) => r matches Statement::Function(y) && reverted_function(x, y),
        Statement::WhileLoop(x) => r matches Statement::WhileLoop(y) && y.position == x.position
            && reverted_expression(x.condition, y.condition) && reverted_block(x.block, y.block),
        Statement::Initialization(x) => r matches Statement::Initialization(y) && y.position
            == x.position && reverted_id(x.id, y.id) && y.mutable == x.mutable && (match x.type_annotation {
            Some(t) => y.type_annotation matches Some(u) && u@ == t@,
            None => y.type_annotation is None,
        }) && reverted_expression(x.value, y.value),
        Statement::Constant(x) => r matches Statement::Constant(y) && y.position == x.position
            && reverted_id(x.id, y.id) && y.type_annotation@ == x.type_annotation@
            && reverted_expression(x.value, y.value),
        Statement::Assignment(x) => r matches Statement::Assignment(y) && y.position == x.position
            && (match x.lvalue {
            LValue::Id(i) => y.lvalue matches LValue::Id(j) && reverted_id(i, j),
            LValue::Postfix(p) => y.lvalue matches LValue::Postfix(q) && reverted_postfix(p, q),
        }) && reverted_expression(x.rvalue, y.rvalue),
        Statement::Expression(x) => r matches Statement::Expression(y) && reverted_expression(x, y),
        Statement::YieldingExpression(x) => r matches Statement::YieldingExpression(y)
            && reverted_expression(x, y),
        Statement::Return(x) => r matches Statement::Return(y) && reverted_expression(x, y),
        Statement::Comment(x) => r matches Statement::Comment(y) && y@ == x@,
        Statement::Declaration(x) => r matches Statement::Declaration(y) && y.position == x.position
            && reverted_id(x.name, y.name) && y.type_annotation@ == x.type_annotation@,
        Statement::StructDeclaration(x) => r matches Statement::StructDeclaration(y) && y.position
            == x.position && reverted_id(x.id, y.id) && y.fields.len() == x.fields.len() && (forall|
            i: int,
        |
            0 <= i < x.fields.len() ==> reverted_id(x.fields@[i].name, y.fields@[i].name)
                && y.fields@[i].type_annotation@ == x.fields@[i].type_annotation@
                && y.fields@[i].position == x.fields@[i].position),
    }
}

/// The identifier without its type information.
pub fn revert_id<T>(id: &Id<T>) -> (r: Id<()>)
    ensures
        r.name@ == id.name@,
        r.position == id.position,
{
    Id { name: id.name.clone(), info: (), position: id.position }
}

pub(crate) fn revert_expressions<T>(es: &Vec<Expression<T>>) -> (r: Vec<Expression<()>>)
    ensures
        r.len() == es.len(),
        forall|i: int| 0 <= i < es.len() ==> reverted_expression(es@[i], r@[i]),
    decreases es,
{
    let mut out: Vec<Expression<()>> = Vec::new();
    let mut k: usize = 0;
    while k < es.len()
        invariant
            k <= es@.len(),
            out.len() == k,
            forall|i: int| 0 <= i < k ==> reverted_expression(es@[i], out@[i]),
        decreases es.len() - k,
    {
        assert(decreases_to!(es => es@[k as int]));
        out.push(revert_expression(&es[k]));
        k = k + 1;
    }
    out
}

pub(crate) fn revert_statements<T>(ss: &Vec<Statement<T>>) -> (r: Vec<Statement<()>>)
    ensures
        r.len() == ss.len(),
        forall|i: int| 0 <= i < ss.len() ==> reverted_statement(ss@[i], r@[i]),
    decreases ss,
{
    let mut out: Vec<Statement<()>> = Vec::new();
    let mut k: usize = 0;
    while k < ss.len()
        invariant
            k <= ss@.len(),
            out.len() == k,
            forall|i: int| 0 <= i < k ==> reverted_statement(ss@[i], out@[i]),
        decreases ss.len() - k,
    {
        assert(decreases_to!(ss => ss@[k as int]));
        out.push(revert_statement(&ss[k]));
        k = k + 1;
    }
    out
}

pub(crate) fn revert_block<T>(b: &Block<T>) -> (r: Block<()>)
    ensures
        reverted_block(*b, r),
    decreases b,
{
    Block { statements: revert_statements(&b.statements), info: (), position: b.position }
}

pub(crate) fn revert_function<T>(f: &Function<T>) -> (r: Function<()>)
    ensures
        reverted_function(*f, r),
    decreases f,
{
    let mut parameters: Vec<FunctionParameter<()>> = Vec::new();
    let mut k: usize = 0;
    while k < f.parameters.len()
        invariant
            k <= f.parameters@.len(),
            parameters.len() == k,
            forall|i: int|
                0 <= i < k ==> reverted_id(f.parameters@[i].name, parameters@[i].name)
                    && parameters@[i].type_annotation@ == f.parameters@[i].type_annotation@
                    && parameters@[i].position == f.parameters@[i].position,
        decreases f.parameters.len() - k,
    {
        let p = &f.parameters[k];
        parameters.push(
            FunctionParameter {
                name: revert_id(&p.name),
                type_annotation: p.type_annotation.clone(),
                info: (),
                position: p.position,
            },
        );
        k = k + 1;
    }
    Function {
        id: revert_id(&f.id),
        parameters,
        return_type: f.return_type.clone(),
        body: revert_block(&f.body),
        info: (),
        position: f.position,
    }
}

pub(crate) fn revert_postfix<T>(p: &Postfix<T>) -> (r: Postfix<()>)
    ensures
        reverted_postfix(*p, r),
    decreases p,
{
    match p {
        Postfix::Call { expr, args, position, .. } => Postfix::Call {
            expr: Box::new(revert_expression(&**expr)),
            args: revert_expressions(args),
            info: (),
            position: *position,
        },
        Postfix::Index { expr, index, position, .. } => Postfix::Index {
            expr: Box::new(revert_expression(&**expr)),
            index: Box::new(revert_expression(&**index)),
            info: (),
            position: *position,
        },
        Postfix::PropertyAccess { expr, property, position, .. } => Postfix::PropertyAccess {
            expr: Box::new(revert_expression(&**expr)),
            property: revert_id(property),
            info: (),
            position: *position,
        },
    }
}

/// The expression without its type information.
#[verifier::loop_isolation(false)]
pub fn revert_expression<T>(e: &Expression<T>) -> (r: Expression<()>)
    ensures
        reverted_expression(*e, r),
        crate::parser::ast::same_skeleton(*e, r),
        (e is Binary) == (r is Binary),
        e matches Expression::Binary(b) ==> r matches Expression::Binary(c) && c.operator
            == b.operator && c.position == b.position,
    decreases e,
{
    match e {
        Expression::Id(id) => Expression::Id(revert_id(id)),
        Expression::Num(Num::Integer(v, _, p)) => Expression::Num(Num::Integer(*v, (), *p)),
        Expression::Num(Num::FloatingPoint(v, _, p)) => Expression::Num(
            Num::FloatingPoint(v.clone(), (), *p),
        ),
        Expression::Bool(b) => Expression::Bool(Bool { value: b.value, position: b.position, info: () }),
        Expression::Character(c) => Expression::Character(
            Character { character: c.character, position: c.position, info: () },
        ),
        Expression::AstString(s) => Expression::AstString(
            AstString { value: s.value.clone(), info: (), position: s.position },
        ),
        Expression::Function(f) => Expression::Function(revert_function(f)),
        Expression::Lambda(l) => {
            let mut parameters: Vec<LambdaParameter<()>> = Vec::new();
            let mut k: usize = 0;
            while k < l.parameters.len()
                invariant
                    k <= l.parameters@.len(),
                    parameters.len() == k,
                    forall|i: int|
                        0 <= i < k ==> reverted_id(l.parameters@[i].name, parameters@[i].name)
                            && parameters@[i].position == l.parameters@[i].position,
                decreases l.parameters.len() - k,
            {
                let p = &l.parameters[k];
                parameters.push(
                    LambdaParameter { name: revert_id(&p.name), info: (), position: p.position },
                );
                k = k + 1;
            }
            Expression::Lambda(
                Lambda {
                    parameters,
                    expression: Box::new(revert_expression(&*l.expression)),
                    info: (),
                    position: l.position,
                },
            )
        },
        Expression::If(i) => Expression::If(
            If {
                condition: Box::new(revert_expression(&*i.condition)),
                then_block: revert_block(&i.then_block),
                else_block: revert_block(&i.else_block),
                info: (),
                position: i.position,
            },
        ),
        Expression::Block(b) => Expression::Block(revert_block(b)),
        Expression::Parens(inner) => Expression::Parens(Box::new(revert_expression(&**inner))),
        Expression::Postfix(p) => Expression::Postfix(revert_postfix(p)),
        Expression::Prefix(Prefix::Negation { expr, position }) => Expression::Prefix(
            Prefix::Negation { expr: Box::new(revert_expression(&**expr)), position: *position },
        ),
        Expression::Prefix(Prefix::Minus { expr, position }) => Expression::Prefix(
            Prefix::Minus { expr: Box::new(revert_expression(&**expr)), position: *position },
        ),
        Expression::Binary(b) => Expression::Binary(
            Box::new(
                BinaryExpression {
                    left: revert_expression(&b.left),
                    right: revert_expression(&b.right),
                    operator: b.operator,
                    info: (),
                    position: b.position,
                },
            ),
        ),
        Expression::Array(Array::Literal { values, position, .. }) => Expression::Array(
            Array::Literal { values: revert_expressions(values), info: (), position: *position },
        ),
        Expression::Array(Array::Default { initial_value, length, position, .. }) => {
            let length = match length {
                Num::Integer(v, _, p) => Num::Integer(*v, (), *p),
                Num::FloatingPoint(v, _, p) => Num::FloatingPoint(v.clone(), (), *p),
            };
            Expression::Array(
                Array::Default {
                    initial_value: Box::new(revert_expression(&**initial_value)),
                    length,
                    info: (),
                    position: *position,
                },
            )
        },
        Expression::StructInitialisation(s) => {
            let mut fields: Vec<StructFieldInitialisation<()>> = Vec::new();
            let mut k: usize = 0;
            while k < s.fields.len()
                invariant
                    k <= s.fields@.len(),
                    fields.len() == k,
                    forall|i: int|
                        0 <= i < k ==> reverted_id(s.fields@[i].name, fields@[i].name)
                            && fields@[i].position == s.fields@[i].position
                            && reverted_expression(s.fields@[i].value, fields@[i].value),
                decreases s.fields.len() - k,
            {
                proof {
                    let ghost fk = s.fields@[k as int];
                    assert(decreases_to!(s.fields => fk));
                    assert(decreases_to!(fk => fk.value));
                }
                let f = &s.fields[k];
                fields.push(
                    StructFieldInitialisation {
                        name: revert_id(&f.name),
                        value: revert_expression(&f.value),
                        info: (),
                        position: f.position,
                    },
                );
                k = k + 1;
            }
            Expression::StructInitialisation(
                StructInitialisation {
                    id: revert_id(&s.id),
                    fields,
                    info: (),
                    position: s.position,
                },
            )
        },
    }
}

/// The statement without its type information.
pub(crate) fn revert_statement<T>(s: &Statement<T>) -> (r: Statement<()>)
    ensures
        reverted_statement(*s, r),
    decreases s,
{
    match s {
        Statement::Function(f) => Statement::Function(revert_function(f)),
        Statement::WhileLoop(w) => Statement::WhileLoop(
            WhileLoop {
                condition: revert_expression(&w.condition),
                block: revert_block(&w.block),
                info: (),
                position: w.position,
            },
        ),
        Statement::Initialization(i) => {
            let type_annotation = match &i.type_annotation {
                Some(t) => Some(t.clone()),
                None => None,
            };
            Statement::Initialization(
                Initialisation {
                    id: revert_id(&i.id),
                    mutable: i.mutable,
                    type_annotation,
                    value: revert_expression(&i.value),
                    info: (),
                    position: i.position,
                },
            )
        },
        Statement::Constant(c) => Statement::Constant(
            Constant {
                id: revert_id(&c.id),
                type_annotation: c.type_annotation.clone(),
                value: revert_expression(&c.value),
                info: (),
                position: c.position,
            },
        ),
        Statement::Assignment(a) => {
            let lvalue = match &a.lvalue {
                LValue::Id(id) => LValue::Id(revert_id(id)),
                LValue::Postfix(p) => LValue::Postfix(revert_postfix(p)),
            };
            Statement::Assignment(
                Assignment {
                    lvalue,
                    rvalue: revert_expression(&a.rvalue),
                    info: (),
                    position: a.position,
                },
            )
        },
        Statement::Expression(e) => Statement::Expression(revert_expression(e)),
        Statement::YieldingExpression(e) => Statement::YieldingExpression(revert_expression(e)),
        Statement::Return(e) => Statement::Return(revert_expression(e)),
        Statement::Comment(c) => Statement::Comment(c.clone()),
        Statement::Declaration(d) => Statement::Declaration(
            Declaration {
                name: revert_id(&d.name),
                type_annotation: d.type_annotation.clone(),
                info: (),
                position: d.position,
            },
        ),
        Statement::StructDeclaration(d) => {
            let mut fields: Vec<StructFieldDeclaration<()>> = Vec::new();
            let mut k: usize = 0;
            while k < d.fields.len()
                invariant
                    k <= d.fields@.len(),
                    fields.len() == k,
                    forall|i: int|
                        0 <= i < k ==> reverted_id(d.fields@[i].name, fields@[i].name)
                            && fields@[i].type_annotation@ == d.fields@[i].type_annotation@
                            && fields@[i].position == d.fields@[i].position,
                decreases d.fields.len() - k,
            {
                let f = &d.fields[k];
                fields.push(
                    StructFieldDeclaration {
                        name: revert_id(&f.name),
                        type_annotation: f.type_annotation.clone(),
                        info: (),
                        position: f.position,
                    },
                );
                k = k + 1;
            }
            Statement::StructDeclaration(
                StructDeclaration { id: revert_id(&d.id), fields, info: (), position: d.position },
            )
        },
    }
}

} // verus!
