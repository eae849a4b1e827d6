//! Expressions of the Y language, parameterised by the information attached to each node.
use vstd::prelude::*;

use crate::lexer::Span;
use crate::parser::ast::{Statement, TypeName};

verus! {

/// An identifier.
#[derive(Debug, Clone, PartialEq, Eq)]
pub struct Id<T> {
    pub name: String,
    pub info: T,
    pub position: Span,
}

/// A number literal. A floating point literal keeps the digits it was written with.
#[derive(Debug, Clone, PartialEq, Eq)]
pub enum Num<T> {
    Integer(u64, T, Span),
    FloatingPoint(String, T, Span),
}

/// A boolean literal.
#[derive(Debug, Clone, PartialEq, Eq)]
pub struct Bool<T> {
    pub value: bool,
    pub position: Span,
    pub info: T,
}

/// A character literal.
#[derive(Debug, Clone, PartialEq, Eq)]
pub struct Character<T> {
    pub character: char,
    pub position: Span,
    pub info: T,
}

/// A string literal.
#[derive(Debug, Clone, PartialEq, Eq)]
pub struct AstString<T> {
    pub value: String,
    pub info: T,
    pub position: Span,
}

/// A function definition.
#[derive(Debug, PartialEq, Eq)]
pub struct Function<T> {
    pub id: Id<T>,
    pub parameters: Vec<FunctionParameter<T>>,
    pub return_type: TypeName,
    pub body: Block<T>,
    pub info: T,
    pub position: Span,
}

/// A parameter of a function definition.
#[derive(Debug, Clone, PartialEq, Eq)]
pub struct FunctionParameter<T> {
    pub name: Id<T>,
    pub type_annotation: TypeName,
    pub info: T,
    pub position: Span,
}

/// An anonymous function `\(params) => expression`.
#[derive(Debug, PartialEq, Eq)]
pub struct Lambda<T> {
    pub parameters: Vec<LambdaParameter<T>>,
    pub expression: Box<Expression<T>>,
    pub info: T,
    pub position: Span,
}

/// A parameter of a lambda.
#[derive(Debug, Clone, PartialEq, Eq)]
pub struct LambdaParameter<T> {
    pub name: Id<T>,
    pub info: T,
    pub position: Span,
}

/// An `if` expression; a missing `else` is an empty block.
#[derive(Debug, PartialEq, Eq)]
pub struct If<T> {
    pub condition: Box<Expression<T>>,
    pub then_block: Block<T>,
    pub else_block: Block<T>,
    pub info: T,
    pub position: Span,
}

/// A block of statements.
#[derive(Debug, PartialEq, Eq)]
pub struct Block<T> {
    pub statements: Vec<Statement<T>>,
    pub info: T,
    pub position: Span,
}

/// A call, an index or a property access.
#[derive(Debug, PartialEq, Eq)]
pub enum Postfix<T> {
    Call { expr: Box<Expression<T>>, args: Vec<Expression<T>>, info: T, position: Span },
    Index { expr: Box<Expression<T>>, index: Box<Expression<T>>, info: T, position: Span },
    PropertyAccess { expr: Box<Expression<T>>, property: Id<T>, info: T, position: Span },
}

/// A prefix operation: `!expr` or `-expr`.
#[derive(Debug, PartialEq, Eq)]
pub enum Prefix<T> {
    Negation { expr: Box<Expression<T>>, position: Span },
    Minus { expr: Box<Expression<T>>, position: Span },
}

/// The binary operators.
#[derive(Debug, Clone, Copy, PartialEq, Eq, Structural)]
pub enum BinaryOperator {
    Add,
    Substract,
    Multiply,
    Divide,
    Equals,
    GreaterThan,
    LessThan,
    GreaterOrEqual,
    LessOrEqual,
}

/// A binary operation.
#[derive(Debug, PartialEq, Eq)]
pub struct BinaryExpression<T> {
    pub left: Expression<T>,
    pub right: Expression<T>,
    pub operator: BinaryOperator,
    pub info: T,
    pub position: Span,
}

/// An array literal.
#[derive(Debug, PartialEq, Eq)]
pub enum Array<T> {
    Literal { values: Vec<Expression<T>>, info: T, position: Span },
    Default { initial_value: Box<Expression<T>>, length: Num<T>, info: T, position: Span },
}

/// The initialisation of a struct value: `Name { field: value, ... }`.
#[derive(Debug, PartialEq, Eq)]
pub struct StructInitialisation<T> {
    pub id: Id<T>,
    pub fields: Vec<StructFieldInitialisation<T>>,
    pub info: T,
    pub position: Span,
}

/// One field of a struct initialisation.
#[derive(Debug, PartialEq, Eq)]
pub struct StructFieldInitialisation<T> {
    pub name: Id<T>,
    pub value: Expression<T>,
    pub info: T,
    pub position: Span,
}

/// An expression.
#[derive(Debug, PartialEq, Eq)]
pub enum Expression<T> {
    Id(Id<T>),
    Num(Num<T>),
    Bool(Bool<T>),
    Character(Character<T>),
    AstString(AstString<T>),
    Function(Function<T>),
    Lambda(Lambda<T>),
    If(If<T>),
    Block(Block<T>),
    Parens(Box<Expression<T>>),
    Postfix(Postfix<T>),
    Prefix(Prefix<T>),
    Binary(Box<BinaryExpression<T>>),
    Array(Array<T>),
    StructInitialisation(StructInitialisation<T>),
}

impl<T: Clone> Num<T> {
    pub open spec fn spec_info(self) -> T {
        match self {
            Num::Integer(_, info, _) => info,
            Num::FloatingPoint(_, info, _) => info,
        }
    }

    pub open spec fn spec_position(self) -> Span {
        match self {
            Num::Integer(_, _, position) => position,
            Num::FloatingPoint(_, _, position) => position,
        }
    }

    /// The information attached to the number.
    pub fn get_info(&self) -> (r: T)
        ensures
            cloned(self.spec_info(), r),
    {
        match self {
            Num::Integer(_, info, _) => info.clone(),
            Num::FloatingPoint(_, info, _) => info.clone(),
        }
    }

    /// Where the number was written.
    pub fn position(&self) -> (p: Span)
        ensures
            p == self.spec_position(),
    {
        match self {
            Num::Integer(_, _, position) => *position,
            Num::FloatingPoint(_, _, position) => *position,
        }
    }
}

impl<T: Clone> Array<T> {
    pub open spec fn spec_info(self) -> T {
        match self {
            Array::Literal { info, .. } => info,
            Array::Default { info, .. } => info,
        }
    }

    pub open spec fn spec_position(self) -> Span {
        match self {
            Array::Literal { position, .. } => position,
            Array::Default { position, .. } => position,
        }
    }

    /// The information attached to the array.
    pub fn get_info(&self) -> (r: T)
        ensures
            cloned(self.spec_info(), r),
    {
        match self {
            Array::Literal { info, .. } => info.clone(),
            Array::Default { info, .. } => info.clone(),
        }
    }

    /// Where the array was written.
    pub fn position(&self) -> (p: Span)
        ensures
            p == self.spec_position(),
    {
        match self {
            Array::Literal { position, .. } => *position,
            Array::Default { position, .. } => *position,
        }
    }
}

impl<T: Clone> Postfix<T> {
    pub open spec fn spec_info(self) -> T {
        match self {
            Postfix::Call { info, .. } => info,
            Postfix::Index { info, .. } => info,
            Postfix::PropertyAccess { info, .. } => info,
        }
    }

    pub open spec fn spec_position(self) -> Span {
        match self {
            Postfix::Call { position, .. } => position,
            Postfix::Index { position, .. } => position,
            Postfix::PropertyAccess { position, .. } => position,
        }
    }

    /// The information attached to the postfix expression.
    pub fn get_info(&self) -> (r: T)
        ensures
            cloned(self.spec_info(), r),
    {
        match self {
            Postfix::Call { info, .. } => info.clone(),
            Postfix::Index { info, .. } => info.clone(),
            Postfix::PropertyAccess { info, .. } => info.clone(),
        }
    }

    /// Where the postfix expression was written.
    pub fn position(&self) -> (p: Span)
        ensures
            p == self.spec_position(),
    {
        match self {
            Postfix::Call { position, .. } => *position,
            Postfix::Index { position, .. } => *position,
            Postfix::PropertyAccess { position, .. } => *position,
        }
    }
}

impl<T: Clone> Prefix<T> {
    pub open spec fn spec_position(self) -> Span {
        match self {
            Prefix::Negation { position, .. } => position,
            Prefix::Minus { position, .. } => position,
        }
    }

    /// The operand of the prefix operation.
    pub open spec fn operand(self) -> Expression<T> {
        match self {
            Prefix::Negation { expr, .. } => *expr,
            Prefix::Minus { expr, .. } => *expr,
        }
    }

    /// A prefix operation carries the information of its operand.
    pub fn get_info(&self) -> (r: T)
        ensures
            cloned(self.operand().spec_info(), r),
        decreases self, 0nat,
    {
        match self {
            Prefix::Negation { expr, .. } => expr.get_info(),
            Prefix::Minus { expr, .. } => expr.get_info(),
        }
    }

    /// Where the prefix operation was written.
    pub fn position(&self) -> (p: Span)
        ensures
            p == self.spec_position(),
    {
        match self {
            Prefix::Negation { position, .. } => *position,
            Prefix::Minus { position, .. } => *position,
        }
    }
}

impl<T: Clone> BinaryExpression<T> {
    /// The information attached to the binary operation.
    pub fn get_info(&self) -> (r: T)
        ensures
            cloned(self.info, r),
    {
        self.info.clone()
    }

    /// Where the binary operation was written.
    pub fn position(&self) -> (p: Span)
        ensures
            p == self.position,
    {
        self.position
    }
}

/// How strongly an operator binds: comparisons loosest, then `+` and `-`, then `*` and `/`.
pub open spec fn operator_precedence(op: BinaryOperator) -> nat {
    match op {
        BinaryOperator::Add | BinaryOperator::Substract => 1,
        BinaryOperator::Multiply | BinaryOperator::Divide => 2,
        _ => 0,
    }
}

impl BinaryExpression<()> {
    /// How strongly the operator of this expression binds.
    pub fn precedence(&self) -> (p: usize)
        ensures
            p == operator_precedence(self.operator),
    {
        match self.operator {
            BinaryOperator::Add | BinaryOperator::Substract => 1,
            BinaryOperator::Multiply | BinaryOperator::Divide => 2,
            BinaryOperator::Equals
            | BinaryOperator::GreaterThan
            | BinaryOperator::LessThan
            | BinaryOperator::GreaterOrEqual
            | BinaryOperator::LessOrEqual => 0,
        }
    }
}

impl<T: Clone> Expression<T> {
    /// The information attached to the expression; a parenthesised or prefixed expression
    /// carries that of its operand.
    pub open spec fn spec_info(self) -> T
        decreases self,
    {
        match self {
            Expression::Id(id) => id.info,
            Expression::Num(num) => num.spec_info(),
            Expression::Bool(b) => b.info,
            Expression::Character(c) => c.info,
            Expression::AstString(s) => s.info,
            Expression::Function(f) => f.info,
            Expression::Lambda(l) => l.info,
            Expression::If(i) => i.info,
            Expression::Block(b) => b.info,
            Expression::Parens(inner) => inner.spec_info(),
            Expression::Postfix(p) => p.spec_info(),
            Expression::Prefix(Prefix::Negation { expr, .. }) => expr.spec_info(),
            Expression::Prefix(Prefix::Minus { expr, .. }) => expr.spec_info(),
            Expression::Binary(b) => b.info,
            Expression::Array(a) => a.spec_info(),
            Expression::StructInitialisation(s) => s.info,
        }
    }

    /// Where the expression was written; a parenthesised expression reports its contents.
    pub open spec fn spec_position(self) -> Span
        decreases self,
    {
        match self {
            Expression::Id(id) => id.position,
            Expression::Num(num) => num.spec_position(),
            Expression::Bool(b) => b.position,
            Expression::Character(c) => c.position,
            Expression::AstString(s) => s.position,
            Expression::Function(f) => f.position,
            Expression::Lambda(l) => l.position,
            Expression::If(i) => i.position,
            Expression::Block(b) => b.position,
            Expression::Parens(inner) => inner.spec_position(),
            Expression::Postfix(p) => p.spec_position(),
            Expression::Prefix(p) => p.spec_position(),
            Expression::Binary(b) => b.position,
            Expression::Array(a) => a.spec_position(),
            Expression::StructInitialisation(s) => s.position,
        }
    }

    /// The information attached to the expression.
    pub fn get_info(&self) -> (r: T)
        ensures
            cloned(self.spec_info(), r),
        decreases self, 1nat,
    {
        match self {
            Expression::Id(id) => id.info.clone(),
            Expression::Num(num) => num.get_info(),
            Expression::Bool(b) => b.info.clone(),
            Expression::Character(c) => c.info.clone(),
            Expression::AstString(s) => s.info.clone(),
            Expression::Function(f) => f.info.clone(),
            Expression::Lambda(l) => l.info.clone(),
            Expression::If(i) => i.info.clone(),
            Expression::Block(b) => b.info.clone(),
            Expression::Parens(inner) => inner.get_info(),
            Expression::Postfix(p) => p.get_info(),
            Expression::Prefix(p) => p.get_info(),
            Expression::Binary(b) => b.get_info(),
            Expression::Array(a) => a.get_info(),
            Expression::StructInitialisation(s) => s.info.clone(),
        }
    }

    /// Where the expression was written.
    pub fn position(&self) -> (p: Span)
        ensures
            p == self.spec_position(),
        decreases self,
    {
        match self {
            Expression::Id(id) => id.position,
            Expression::Num(num) => num.position(),
            Expression::Bool(b) => b.position,
            Expression::Character(c) => c.position,
            Expression::AstString(s) => s.position,
            Expression::Function(f) => f.position,
            Expression::Lambda(l) => l.position,
            Expression::If(i) => i.position,
            Expression::Block(b) => b.position,
            Expression::Parens(inner) => inner.position(),
            Expression::Postfix(p) => p.position(),
            Expression::Prefix(p) => p.position(),
            Expression::Binary(b) => b.position,
            Expression::Array(a) => a.position(),
            Expression::StructInitialisation(s) => s.position,
        }
    }
}

/// Two expressions have the same binary skeleton: both are binary operations with equal
/// operators and positions whose operands have the same binary skeleton, or neither is a
/// binary operation.
pub open spec fn same_skeleton<T, U>(a: Expression<T>, b: Expression<U>) -> bool
    decreases a,
{
    match a {
        Expression::Binary(x) => match b {
            Expression::Binary(y) => x.operator == y.operator && x.position == y.position
                && same_skeleton(x.left, y.left) && same_skeleton(x.right, y.right),
            _ => false,
        },
        _ => !(b is Binary),
    }
}

/// The number of binary operations in an expression, counted through binary nodes.
pub open spec fn binary_size(e: Expression<()>) -> nat
    decreases e,
{
    match e {
        Expression::Binary(b) => 1 + binary_size(b.left) + binary_size(b.right),
        _ => 0,
    }
}

/// Balancing rotates a binary operation to the left while its right operand is a binary
/// operation that binds more loosely: `a * (b + c)` becomes `(a * b) + c`.
pub open spec fn spec_balance(b: BinaryExpression<()>) -> BinaryExpression<()>
    decreases binary_size(b.right),
{
    match b.right {
        Expression::Binary(rb) => if operator_precedence(rb.operator) < operator_precedence(
            b.operator,
        ) {
            BinaryExpression {
                left: Expression::Binary(
                    Box::new(
                        spec_balance(
                            BinaryExpression {
                                left: b.left,
                                right: rb.left,
                                operator: b.operator,
                                info: (),
                                position: b.position,
                            },
                        ),
                    ),
                ),
                right: rb.right,
                operator: rb.operator,
                info: (),
                position: rb.position,
            }
        } else {
            b
        },
        _ => b,
    }
}

fn operator_precedence_of(op: BinaryOperator) -> (p: usize)
    ensures
        p == operator_precedence(op),
{
    match op {
        BinaryOperator::Add | BinaryOperator::Substract => 1,
        BinaryOperator::Multiply | BinaryOperator::Divide => 2,
        _ => 0,
    }
}

/// Balance a binary operation that is owned.
fn balance_owned(b: BinaryExpression<()>) -> (r: BinaryExpression<()>)
    ensures
        r == spec_balance(b),
    decreases binary_size(b.right),
{
    let rotate = match &b.right {
        Expression::Binary(rb) => operator_precedence_of(rb.operator) < operator_precedence_of(
            b.operator,
        ),
        _ => false,
    };
    if !rotate {
        return b;
    }
    let BinaryExpression { left, right, operator, position, .. } = b;
    match right {
        Expression::Binary(rb) => {
            let BinaryExpression {
                left: inner_lhs,
                right: inner_rhs,
                operator: inner_operator,
                position: inner_position,
                ..
            } = *rb;
            let rotated = balance_owned(
                BinaryExpression { left, right: inner_lhs, operator, info: (), position },
            );
            BinaryExpression {
                left: Expression::Binary(Box::new(rotated)),
                right: inner_rhs,
                operator: inner_operator,
                info: (),
                position: inner_position,
            }
        },
        other => {
            proof {
                assert(false);
            }
            BinaryExpression { left, right: other, operator, info: (), position }
        },
    }
}

impl BinaryExpression<()> {
    /// Copies of both operands.
    pub fn inner(&self) -> (r: (Expression<()>, Expression<()>))
        ensures
            same_skeleton(self.left, r.0),
            same_skeleton(self.right, r.1),
    {
        (
            crate::typechecker::revert::revert_expression(&self.left),
            crate::typechecker::revert::revert_expression(&self.right),
        )
    }

    /// A function that builds an operation with this operator from two operands and a position.
    pub fn converter(&self) -> (f: impl Fn(Expression<()>, Expression<()>, Span) -> BinaryExpression<()>)
        ensures
            forall|l: Expression<()>, r: Expression<()>, p: Span| #[trigger] f.requires((l, r, p)),
            forall|l: Expression<()>, r: Expression<()>, p: Span, b: BinaryExpression<()>|
                #[trigger] f.ensures((l, r, p), b) ==> b == (BinaryExpression {
                    left: l,
                    right: r,
                    operator: self.operator,
                    info: (),
                    position: p,
                }),
    {
        let operator = self.operator;
        move |left: Expression<()>, right: Expression<()>, position: Span| -> (b: BinaryExpression<()>)
            ensures
                b == (BinaryExpression { left, right, operator, info: (), position }),
            { BinaryExpression { left, right, operator, info: (), position } }
    }

    /// Balance the operation: while the right operand is a binary operation that binds more
    /// loosely, rotate to the left. The result has the binary skeleton of the balanced
    /// operation; its operands are copies.
    pub fn balance(&self) -> (r: BinaryExpression<()>)
        ensures
            same_skeleton(
                Expression::Binary(Box::new(spec_balance(*self))),
                Expression::Binary(Box::new(r)),
            ),
    {
        let (left, right) = self.inner();
        let copy = BinaryExpression {
            left,
            right,
            operator: self.operator,
            info: (),
            position: self.position,
        };
        proof {
            lemma_balance_keeps_skeleton(*self, copy);
        }
        balance_owned(copy)
    }
}

/// Balancing two operations with the same binary skeleton gives operations with the same
/// binary skeleton.
proof fn lemma_balance_keeps_skeleton(a: BinaryExpression<()>, b: BinaryExpression<()>)
    requires
        same_skeleton(Expression::Binary(Box::new(a)), Expression::Binary(Box::new(b))),
    ensures
        same_skeleton(
            Expression::Binary(Box::new(spec_balance(a))),
            Expression::Binary(Box::new(spec_balance(b))),
        ),
    decreases binary_size(a.right),
{
    reveal_with_fuel(same_skeleton, 3);
    match a.right {
        Expression::Binary(ra) => {
            let rb = b.right->Binary_0;
            if operator_precedence(ra.operator) < operator_precedence(a.operator) {
                let ia = BinaryExpression {
                    left: a.left,
                    right: ra.left,
                    operator: a.operator,
                    info: (),
                    position: a.position,
                };
                let ib = BinaryExpression {
                    left: b.left,
                    right: rb.left,
                    operator: b.operator,
                    info: (),
                    position: b.position,
                };
                lemma_balance_keeps_skeleton(ia, ib);
            }
        },
        _ => {},
    }
}

/// Balancing keeps the written order of operands and operators: the balanced operation
/// renders to the same lexemes.
pub proof fn law_balance_keeps_lexemes(b: BinaryExpression<()>)
    ensures
        crate::parser::render::render_expression(Expression::Binary(Box::new(spec_balance(b))))
            == crate::parser::render::render_expression(Expression::Binary(Box::new(b))),
    decreases binary_size(b.right),
{
    match b.right {
        Expression::Binary(rb) => {
            if operator_precedence(rb.operator) < operator_precedence(b.operator) {
                let inner = BinaryExpression {
                    left: b.left,
                    right: rb.left,
                    operator: b.operator,
                    info: (),
                    position: b.position,
                };
                law_balance_keeps_lexemes(inner);
                let op1 = crate::parser::render::term(crate::parser::render::operator_terminal(b.operator));
                let op2 = crate::parser::render::term(crate::parser::render::operator_terminal(rb.operator));
                let rl = crate::parser::render::render_expression(b.left);
                let rm = crate::parser::render::render_expression(rb.left);
                let rr = crate::parser::render::render_expression(rb.right);
                let sb = spec_balance(inner);
                assert(crate::parser::render::render_expression(Expression::Binary(Box::new(inner)))
                    == rl + op1 + rm);
                assert(crate::parser::render::render_expression(b.right) == rm + op2 + rr);
                assert(crate::parser::render::render_expression(Expression::Binary(Box::new(b)))
                    == rl + op1 + (rm + op2 + rr));
                assert(spec_balance(b).left == Expression::Binary(Box::new(sb)));
                assert(crate::parser::render::render_expression(Expression::Binary(Box::new(spec_balance(b))))
                    == crate::parser::render::render_expression(Expression::Binary(Box::new(sb))) + op2 + rr);
                assert(rl + op1 + (rm + op2 + rr) =~= rl + op1 + rm + op2 + rr);
            }
        },
        _ => {},
    }
}

} // verus!
