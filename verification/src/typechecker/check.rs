//! Checking the syntax tree: every node gets its type, by the rules of its kind.
use vstd::prelude::*;
use vstd::string::StringExecFns;

use crate::lexer::Span;
use crate::parser::ast::{
    lvalue_names_variable, lvalue_variable, TypeNameView, Array, Assignment, AstString, BinaryExpression, Block, Bool, Character, Constant, Declaration,
    Expression, Function, FunctionParameter, Id, If, Initialisation, LValue, Lambda,
    LambdaParameter, Num, Postfix, Prefix, Statement, StructDeclaration, StructFieldDeclaration,
    StructFieldInitialisation, StructInitialisation, TypeName, WhileLoop,
};
use crate::typechecker::context::Context;
use crate::typechecker::error::{
    ImmutableReassign, InvalidConstantType, MissingInitialisationType, RedefinedConstant,
    TypeCheckError, TypeMismatch, UndefinedType, UndefinedVariable,
};
use crate::typechecker::revert::revert_expression;
use crate::typechecker::rules::{
    array_literal_rule, array_literal_type, binary_rule, first_element_mismatch, lemma_first_element_mismatch, lemma_no_element_mismatch, binary_type, if_rule, if_type, index_rule, index_type,
    is_mismatch, is_unsupported_operation, require_number, require_type, required_rule,
};
use crate::typechecker::scope::{
    BindingV, FrameV, ScopeV, empty_frame, frame_with_variable, keeps_definitions, lemma_frame_round_trip, lemma_keeps_definitions_lookups,
    lookup_constant, lookup_type, lookup_variable, property_of, resolve,
};
use crate::typechecker::types::{
    Type, TypeV, is_undefined_type_error, lemma_resolve_type_name_same_types, lemma_view_fields,
    lemma_view_types, lemma_resolve_names_prefix_error,
    opt_view, resolve_type_name, resolve_type_names, view_fields, view_types,
};
use crate::typechecker::TypeInformation;

verus! {

/// The budget of re-checks that lambdas whose parameter types become known may make.
pub const RECHECK_BUDGET: u64 = 0xffff_ffff_ffff_ffff;

/// Type names resolve alike in scopes one of which keeps the definitions of the other.
proof fn lemma_same_resolution(before: ScopeV, after: ScopeV, t: TypeNameView)
    requires
        keeps_definitions(before, after),
    ensures
        resolve_type_name(t, after.frames) == resolve_type_name(t, before.frames),
{
    assert forall|n: Seq<char>| #[trigger] lookup_type(after.frames, n) == lookup_type(
        before.frames,
        n,
    ) by {
        lemma_keeps_definitions_lookups(before, after, n);
    }
    lemma_resolve_type_name_same_types(t, after.frames, before.frames);
}

/// Type names resolve in a frame entered inside a scope as in the scope itself.
proof fn lemma_resolution_inside_frame(
    outer: ScopeV,
    entered: ScopeV,
    inside: ScopeV,
    t: TypeNameView,
)
    requires
        entered.frames == outer.frames.push(empty_frame()),
        keeps_definitions(entered, inside),
    ensures
        resolve_type_name(t, inside.frames) == resolve_type_name(t, outer.frames),
{
    assert forall|n: Seq<char>| #[trigger] lookup_type(inside.frames, n) == lookup_type(
        outer.frames,
        n,
    ) by {
        lemma_keeps_definitions_lookups(entered, inside, n);
        assert(entered.frames.drop_last() =~= outer.frames);
    }
    lemma_resolve_type_name_same_types(t, inside.frames, outer.frames);
}

/// The type names of a function's parameters, in order.
pub open spec fn parameter_type_names(ps: Seq<FunctionParameter<()>>) -> Seq<TypeNameView> {
    Seq::new(ps.len(), |i: int| ps[i].type_annotation@)
}

/// The known type of a checked node.
pub open spec fn ty(info: TypeInformation) -> Option<TypeV> {
    opt_view(info.type_id)
}

/// The known type of a checked expression.
pub open spec fn expr_ty(e: Expression<TypeInformation>) -> Option<TypeV> {
    ty(e.spec_info())
}

/// The known type of the last statement of a list; none for an empty list or a comment.
pub open spec fn last_statement_type(ss: Seq<Statement<TypeInformation>>) -> Option<TypeV> {
    if ss.len() == 0 {
        None
    } else {
        match ss.last() {
            Statement::Comment(_) => None,
            last => ty(last.spec_info()),
        }
    }
}

/// The known type of the last statement of a block.
fn last_statement_type_of(ss: &Vec<Statement<TypeInformation>>) -> (t: Option<Type>)
    ensures
        opt_view(t) == last_statement_type(ss@),
{
    if ss.len() == 0 {
        None
    } else {
        statement_type(&ss[ss.len() - 1])
    }
}

/// The type of a block: that of its last statement, except that a block ending in an
/// expression statement, a comment, or with no statements is `Void`.
pub open spec fn block_rule(ss: Seq<Statement<TypeInformation>>) -> Option<TypeV> {
    if ss.len() == 0 {
        Some(TypeV::Void)
    } else {
        match ss.last() {
            Statement::Expression(_) => Some(TypeV::Void),
            Statement::Comment(_) => Some(TypeV::Void),
            last => ty(last.spec_info()),
        }
    }
}

/// The type of a block depends on its last statement alone, whatever statements come before
/// it: `void` where that is an expression statement or a comment, otherwise the type of that
/// statement; an empty block is `void`.
pub proof fn law_block_type_is_its_last_statement(
    before: Seq<Statement<TypeInformation>>,
    last: Statement<TypeInformation>,
)
    ensures
        block_rule(before.push(last)) == block_rule(seq![last]),
        (last is Expression || last is Comment) ==> block_rule(before.push(last)) == Some(TypeV::Void),
        !(last is Expression || last is Comment) ==> block_rule(before.push(last)) == ty(
            last.spec_info(),
        ),
        block_rule(Seq::<Statement<TypeInformation>>::empty()) == Some(TypeV::Void),
{
    assert(before.push(last).last() == last);
    assert(seq![last].last() == last);
}

/// A literal has the type that the built-in type name for it stands for: an integer `i64`,
/// a floating point number `f64`, a truth value `bool`, a character `char` and a string `str`.
pub proof fn law_literal_types_match_type_names(e: Expression<()>, p: Span, frames: Seq<FrameV>)
    ensures
        e is Num && e->Num_0 is Integer ==> literal_type(e) == resolve_type_name(
            TypeNameView::Literal("i64"@, p),
            frames,
        ).ok(),
        e is Num && e->Num_0 is FloatingPoint ==> literal_type(e) == resolve_type_name(
            TypeNameView::Literal("f64"@, p),
            frames,
        ).ok(),
        e is Bool ==> literal_type(e) == resolve_type_name(TypeNameView::Literal("bool"@, p), frames).ok(),
        e is Character ==> literal_type(e) == resolve_type_name(
            TypeNameView::Literal("char"@, p),
            frames,
        ).ok(),
        e is AstString ==> literal_type(e) == resolve_type_name(
            TypeNameView::Literal("str"@, p),
            frames,
        ).ok(),
{
    crate::typechecker::types::law_builtin_type_names(p, frames);
}

fn clone_option(t: &Option<Type>) -> (r: Option<Type>)
    ensures
        opt_view(r) == opt_view(*t),
{
    match t {
        Some(t) => Some(t.clone()),
        None => None,
    }
}

/// The known type of a checked expression.
pub fn type_of(e: &Expression<TypeInformation>) -> (t: Option<Type>)
    ensures
        opt_view(t) == expr_ty(*e),
    decreases e,
{
    match e {
        Expression::Id(x) => clone_option(&x.info.type_id),
        Expression::Num(Num::Integer(_, info, _)) => clone_option(&info.type_id),
        Expression::Num(Num::FloatingPoint(_, info, _)) => clone_option(&info.type_id),
        Expression::Bool(x) => clone_option(&x.info.type_id),
        Expression::Character(x) => clone_option(&x.info.type_id),
        Expression::AstString(x) => clone_option(&x.info.type_id),
        Expression::Function(x) => clone_option(&x.info.type_id),
        Expression::Lambda(x) => clone_option(&x.info.type_id),
        Expression::If(x) => clone_option(&x.info.type_id),
        Expression::Block(x) => clone_option(&x.info.type_id),
        Expression::Parens(inner) => type_of(&**inner),
        Expression::Postfix(Postfix::Call { info, .. }) => clone_option(&info.type_id),
        Expression::Postfix(Postfix::Index { info, .. }) => clone_option(&info.type_id),
        Expression::Postfix(Postfix::PropertyAccess { info, .. }) => clone_option(&info.type_id),
        Expression::Prefix(Prefix::Negation { expr, .. }) => type_of(&**expr),
        Expression::Prefix(Prefix::Minus { expr, .. }) => type_of(&**expr),
        Expression::Binary(b) => clone_option(&b.info.type_id),
        Expression::Array(Array::Literal { info, .. }) => clone_option(&info.type_id),
        Expression::Array(Array::Default { info, .. }) => clone_option(&info.type_id),
        Expression::StructInitialisation(x) => clone_option(&x.info.type_id),
    }
}

/// The known type of a checked statement; a comment has none.
pub fn statement_type(s: &Statement<TypeInformation>) -> (t: Option<Type>)
    ensures
        !(s is Comment) ==> opt_view(t) == ty(s.spec_info()),
        s is Comment ==> t is None,
{
    match s {
        Statement::Function(x) => clone_option(&x.info.type_id),
        Statement::WhileLoop(x) => clone_option(&x.info.type_id),
        Statement::Initialization(x) => clone_option(&x.info.type_id),
        Statement::Constant(x) => clone_option(&x.info.type_id),
        Statement::Assignment(x) => clone_option(&x.info.type_id),
        Statement::Expression(e) => type_of(e),
        Statement::YieldingExpression(e) => type_of(e),
        Statement::Return(e) => type_of(e),
        Statement::Comment(_) => None,
        Statement::Declaration(x) => clone_option(&x.info.type_id),
        Statement::StructDeclaration(x) => clone_option(&x.info.type_id),
    }
}

fn info_of(t: Option<Type>, context: Context) -> (r: TypeInformation)
    ensures
        opt_view(r.type_id) == opt_view(t),
        r.context == context,
{
    TypeInformation { type_id: t, context }
}

/// The type of a block with the given checked statements.
fn block_type(ss: &Vec<Statement<TypeInformation>>) -> (t: Option<Type>)
    ensures
        opt_view(t) == block_rule(ss@),
{
    if ss.len() == 0 {
        return Some(Type::Void);
    }
    let last = &ss[ss.len() - 1];
    match last {
        Statement::Expression(_) => Some(Type::Void),
        Statement::Comment(_) => Some(Type::Void),
        _ => statement_type(last),
    }
}

/// The rule of a checked call, index or property access; the methods are those in scope.
pub open spec fn postfix_rule(
    p: Postfix<()>,
    c: Postfix<TypeInformation>,
    methods: Map<TypeV, Map<Seq<char>, TypeV>>,
) -> bool {
    match c {
        Postfix::Index { expr, index, info, .. } => p is Index && index_rule(
            expr_ty(*expr),
            expr_ty(*index),
        ) == Ok::<Option<TypeV>, (TypeV, TypeV, bool)>(ty(info)),
        Postfix::Call { expr, args, info, .. } => p is Call && match expr_ty(*expr) {
            None => ty(info) is None,
            Some(TypeV::Function(ps, rv)) => ty(info) == Some(*rv) && args@.len() == ps.len()
                && forall|i: int|
                0 <= i < ps.len() ==> expr_ty(#[trigger] args@[i]) == Some(ps[i]) || (ps[i]
                    == TypeV::Unknown && expr_ty(args@[i]) is None),
            Some(_) => false,
        },
        Postfix::PropertyAccess { expr, property, info, .. } => p is PropertyAccess && ty(
            property.info,
        ) == ty(info) && match expr_ty(*expr) {
            None => ty(info) is None,
            Some(t) => ty(info) == property_of(methods, t, property.name@) && ty(info) is Some,
        },
    }
}

/// The rule of a checked lambda: a lambda without parameters whose body has a known type is a
/// function of no arguments returning it; otherwise its type is not known yet.
pub open spec fn lambda_rule(l: Lambda<()>, c: Lambda<TypeInformation>) -> bool {
    c.position == l.position && c.parameters@.len() == l.parameters@.len() && ty(c.info) == (if c.parameters@.len()
        == 0 && expr_ty(*c.expression) is Some {
        Some(TypeV::Function(Seq::empty(), Box::new(expr_ty(*c.expression).unwrap())))
    } else {
        None
    })
}

/// The rule of a checked struct initialisation: the name is that of a struct type in scope,
/// which the initialisation has, and its fields are initialised in declared order with the
/// declared types.
pub open spec fn struct_initialisation_rule(
    s: StructInitialisation<()>,
    c: StructInitialisation<TypeInformation>,
    frames: Seq<FrameV>,
) -> bool {
    &&& c.position == s.position
    &&& c.id.name@ == s.id.name@
    &&& lookup_type(frames, s.id.name@) matches Some(TypeV::Struct(_, _))
    &&& ty(c.info) == lookup_type(frames, s.id.name@)
    &&& initialises_fields(c.fields@, declared_fields(ty(c.info)))
}

/// The rule of a checked function: it has the function type of its annotated parameter and
/// return types, which resolve in scope; its body has the return type, or no known type where
/// that is `void`.
pub open spec fn function_rule(f: Function<()>, c: Function<TypeInformation>, frames: Seq<FrameV>) -> bool {
    &&& c.position == f.position
    &&& c.id.name@ == f.id.name@
    &&& resolve_type_names(parameter_type_names(f.parameters@), frames) matches Ok(ps)
    &&& resolve_type_name(f.return_type@, frames) matches Ok(rt)
    &&& ty(c.info) == Some(TypeV::Function(ps, Box::new(rt)))
    &&& (ty(c.body.info) == Some(rt) || (rt == TypeV::Void && ty(c.body.info) is None))
}

/// The element types of checked expressions.
pub open spec fn expression_types(values: Seq<Expression<TypeInformation>>) -> Seq<Option<TypeV>> {
    values.map_values(|v: Expression<TypeInformation>| expr_ty(v))
}

/// The expression that a call, an index or a property access applies to.
pub open spec fn postfix_operand<T>(p: Postfix<T>) -> Box<Expression<T>> {
    match p {
        Postfix::Call { expr, .. } => expr,
        Postfix::Index { expr, .. } => expr,
        Postfix::PropertyAccess { expr, .. } => expr,
    }
}

/// The type of a literal: an integer, a floating point number, a truth value, a character or
/// a string; other expressions are not literals.
pub open spec fn literal_type(e: Expression<()>) -> Option<TypeV> {
    match e {
        Expression::Num(Num::Integer(..)) => Some(TypeV::Integer),
        Expression::Num(Num::FloatingPoint(..)) => Some(TypeV::FloatingPoint),
        Expression::Bool(_) => Some(TypeV::Boolean),
        Expression::Character(_) => Some(TypeV::Character),
        Expression::AstString(_) => Some(TypeV::String),
        _ => None,
    }
}

/// The type of a simple operand, one whose check gives it a known type and leaves the scope
/// as it was: a literal; a name bound to a known type; a function whose check cannot fail; a
/// lambda without parameters whose body is a literal; and, built from simple operands, a
/// parenthesised operand, a prefix or binary operation, an index, a property access, a call
/// whose arguments have exactly the parameter types, an array literal or default array whose
/// elements agree, a block of one value, an `if` whose branches are one value each of the same
/// type, and a struct value that initialises every declared field with its type; in each case
/// where the rule of the operation accepts the operand types.
pub open spec fn simple_type(e: Expression<()>, s: ScopeV) -> Option<TypeV>
    decreases e,
{
    match e {
        Expression::Id(id) => match resolve(s.frames, id.name@) {
            Some(Some(t)) => Some(t),
            _ => None,
        },
        Expression::Parens(inner) => simple_type(*inner, s),
        Expression::Prefix(Prefix::Negation { expr, .. }) => if simple_type(*expr, s) == Some(
            TypeV::Boolean,
        ) {
            Some(TypeV::Boolean)
        } else {
            None
        },
        Expression::Prefix(Prefix::Minus { expr, .. }) => match simple_type(*expr, s) {
            Some(TypeV::Integer) => Some(TypeV::Integer),
            Some(TypeV::FloatingPoint) => Some(TypeV::FloatingPoint),
            _ => None,
        },
        Expression::Binary(b) => match (simple_type(b.left, s), simple_type(b.right, s)) {
            (Some(l), Some(r)) => match binary_rule(b.operator, Some(l), Some(r)) {
                Ok(Some(t)) => Some(t),
                _ => None,
            },
            _ => None,
        },
        Expression::Postfix(Postfix::Index { expr, index, .. }) => match (
            simple_type(*expr, s),
            simple_type(*index, s),
        ) {
            (Some(a), Some(i)) => match index_rule(Some(a), Some(i)) {
                Ok(Some(t)) => Some(t),
                _ => None,
            },
            _ => None,
        },
        Expression::Postfix(Postfix::Call { expr, args, .. }) => match simple_type(*expr, s) {
            Some(TypeV::Function(ps, rv)) => if ps.len() == args.len() && (forall|i: int|
                0 <= i < args.len() ==> simple_type(#[trigger] args@[i], s) == Some(ps[i]) && ps[i]
                    != TypeV::Unknown) {
                Some(*rv)
            } else {
                None
            },
            _ => None,
        },
        Expression::Array(Array::Literal { values, .. }) => if values.len() > 0 && simple_type(
            values@[0],
            s,
        ) is Some && simple_type(values@[0], s) != Some(TypeV::Unknown) && (forall|i: int|
            0 <= i < values.len() ==> simple_type(#[trigger] values@[i], s) == simple_type(
                values@[0],
                s,
            )) {
            Some(TypeV::Array(Box::new(simple_type(values@[0], s)->Some_0)))
        } else {
            None
        },
        Expression::Array(Array::Default { initial_value, .. }) => match simple_type(
            *initial_value,
            s,
        ) {
            Some(t) => Some(TypeV::Array(Box::new(t))),
            None => None,
        },
        Expression::Postfix(Postfix::PropertyAccess { expr, property, .. }) => match simple_type(
            *expr,
            s,
        ) {
            Some(t) => property_of(s.methods, t, property.name@),
            None => None,
        },
        Expression::Function(f) => if signature_checks(f, s.frames) && body_fits(f, s.frames) {
            Some(
                TypeV::Function(
                    resolve_type_names(parameter_type_names(f.parameters@), s.frames)->Ok_0,
                    Box::new(resolve_type_name(f.return_type@, s.frames)->Ok_0),
                ),
            )
        } else {
            None
        },
        Expression::Lambda(l) => if l.parameters@.len() == 0 && literal_type(*l.expression) is Some {
            Some(TypeV::Function(Seq::empty(), Box::new(literal_type(*l.expression)->Some_0)))
        } else {
            None
        },
        Expression::Block(b) => if b.statements.len() == 1 {
            match value_type(b.statements@[0], s) {
                Some(t) => if b.statements@[0] is YieldingExpression {
                    Some(t)
                } else {
                    Some(TypeV::Void)
                },
                None => None,
            }
        } else {
            None
        },
        Expression::If(i) => if simple_type(*i.condition, s) == Some(TypeV::Boolean)
            && i.then_block.statements.len() == 1 && i.else_block.statements.len() == 1 && value_type(
            i.then_block.statements@[0],
            s,
        ) is Some && value_type(i.then_block.statements@[0], s) == value_type(
            i.else_block.statements@[0],
            s,
        ) {
            value_type(i.then_block.statements@[0], s)
        } else {
            None
        },
        Expression::StructInitialisation(x) => match lookup_type(s.frames, x.id.name@) {
            Some(TypeV::Struct(n, d)) => if (forall|i: int|
                0 <= i < x.fields.len() ==> simple_type(#[trigger] x.fields@[i].value, s) is Some
                    && simple_type(x.fields@[i].value, s) != Some(TypeV::Unknown)) && distinct_names(d)
                && (forall|j: int|
                0 <= j < d.len() ==> 0 <= #[trigger] last_field(x.fields@, d[j].0) < x.fields.len()
                    && simple_type(x.fields@[last_field(x.fields@, d[j].0)].value, s) == Some(d[j].1)) {
                Some(TypeV::Struct(n, d))
            } else {
                None
            },
            _ => None,
        },
        _ => literal_type(e),
    }
}

/// The type of an expression statement or yielded value of a simple operand.
pub open spec fn value_type(st: Statement<()>, s: ScopeV) -> Option<TypeV>
    decreases st,
{
    match st {
        Statement::Expression(e) => simple_type(e, s),
        Statement::YieldingExpression(e) => simple_type(e, s),
        _ => None,
    }
}

/// Whether every expression of a list is a simple operand of a type other than `Unknown`.
pub open spec fn all_simple(es: Seq<Expression<()>>, s: ScopeV) -> bool {
    forall|j: int|
        0 <= j < es.len() ==> simple_type(#[trigger] es[j], s) is Some && simple_type(
            es[j],
            s,
        ) != Some(TypeV::Unknown)
}

/// The types of a list of simple operands.
pub open spec fn simple_types(es: Seq<Expression<()>>, s: ScopeV) -> Seq<TypeV> {
    Seq::new(es.len(), |j: int| simple_type(es[j], s)->Some_0)
}

/// For a call of a simple operand with simple arguments: the type of the callee and the
/// types of the arguments.
pub open spec fn call_types(p: Postfix<()>, s: ScopeV) -> Option<(TypeV, Seq<TypeV>)> {
    match p {
        Postfix::Call { expr, args, .. } => if simple_type(*expr, s) is Some && all_simple(
            args@,
            s,
        ) {
            Some((simple_type(*expr, s)->Some_0, simple_types(args@, s)))
        } else {
            None
        },
        _ => None,
    }
}

/// The types, where known, of a list of simple operands.
pub open spec fn simple_opt_types(es: Seq<Expression<()>>, s: ScopeV) -> Seq<Option<TypeV>> {
    Seq::new(es.len(), |j: int| simple_type(es[j], s))
}

/// The expression of an expression statement or of a yielded value.
pub open spec fn statement_value(s: Statement<()>) -> Expression<()> {
    match s {
        Statement::Expression(e) => e,
        Statement::YieldingExpression(e) => e,
        _ => arbitrary(),
    }
}

/// For a list of exactly one expression statement or yielded value, of a simple operand: its
/// type and where it was written.
pub open spec fn lone_value(ss: Seq<Statement<()>>, s: ScopeV) -> Option<(TypeV, Span)> {
    if ss.len() == 1 && value_type(ss[0], s) is Some {
        Some((value_type(ss[0], s)->Some_0, statement_value(ss[0]).spec_position()))
    } else {
        None
    }
}

/// For a list of exactly one statement that yields a literal: the literal's type and where it
/// was written.
pub open spec fn lone_yield(ss: Seq<Statement<()>>) -> Option<(TypeV, Span)> {
    if ss.len() == 1 && ss[0] is YieldingExpression && literal_type(ss[0]->YieldingExpression_0) is Some {
        Some((literal_type(ss[0]->YieldingExpression_0)->Some_0, ss[0]->YieldingExpression_0.spec_position()))
    } else {
        None
    }
}

/// The type of a literal expression, whatever information its nodes carry.
pub open spec fn lit_type<T>(e: Expression<T>) -> Option<TypeV> {
    match e {
        Expression::Num(Num::Integer(..)) => Some(TypeV::Integer),
        Expression::Num(Num::FloatingPoint(..)) => Some(TypeV::FloatingPoint),
        Expression::Bool(_) => Some(TypeV::Boolean),
        Expression::Character(_) => Some(TypeV::Character),
        Expression::AstString(_) => Some(TypeV::String),
        _ => None,
    }
}

/// As many unknown types as a lambda has parameters.
pub open spec fn unknowns(n: nat) -> Seq<TypeV> {
    Seq::new(n, |k: int| TypeV::Unknown)
}

/// A function type that a lambda may still refine: its return type or a parameter type is
/// unknown.
pub open spec fn refinable(c: TypeV) -> bool {
    c matches TypeV::Function(ps, rv) && (*rv == TypeV::Unknown || exists|k: int|
        0 <= k < ps.len() && ps[k] == TypeV::Unknown)
}

/// A lambda whose check cannot fail: no parameter has the name of a constant, and the body is
/// a literal or the name of one of the parameters.
pub open spec fn lambda_plain(l: Lambda<()>, frames: Seq<FrameV>) -> bool {
    &&& forall|k: int|
        0 <= k < l.parameters@.len() ==> lookup_constant(frames, #[trigger] l.parameters@[k].name.name@)
            is None
    &&& literal_type(*l.expression) is Some || (*l.expression matches Expression::Id(x) && exists|k: int|
        0 <= k < l.parameters@.len() && #[trigger] l.parameters@[k].name.name@ == x.name@)
}

/// Whether no parameter of a lambda has the name of a constant of the lambda's context.
pub open spec fn parameters_unbound(l: Lambda<TypeInformation>) -> bool {
    forall|k: int|
        0 <= k < l.parameters@.len() ==> lookup_constant(
            l.info.context@.frames,
            #[trigger] l.parameters@[k].name.name@,
        ) is None
}

/// Whether no two parameters of a lambda have the same name.
pub open spec fn distinct_parameters(l: Lambda<TypeInformation>) -> bool {
    forall|a: int, b: int|
        0 <= a < b < l.parameters@.len() ==> #[trigger] l.parameters@[a].name.name@ != #[trigger] l.parameters@[
            b
        ].name.name@
}

/// Whether the body of a lambda is the name of its parameter `k`.
pub open spec fn body_names_parameter(l: Lambda<TypeInformation>, k: int) -> bool {
    &&& 0 <= k < l.parameters@.len()
    &&& *l.expression matches Expression::Id(x) && x.name@ == l.parameters@[k].name.name@
}

/// Binding a variable in the innermost frame binds that name and keeps the other names.
proof fn lemma_variable_bound(before: ScopeV, after: ScopeV, p: Seq<char>, b: BindingV, m: Seq<char>)
    requires
        before.frames.len() > 0,
        after.frames == before.frames.update(
            before.frames.len() - 1,
            frame_with_variable(before.frames.last(), p, b),
        ),
    ensures
        lookup_variable(after.frames, m) == if m == p {
            Some(b)
        } else {
            lookup_variable(before.frames, m)
        },
{
    assert(after.frames.drop_last() =~= before.frames.drop_last());
}

/// Whether pushing the type `t` into a lambda whose type is `current` goes on to check the
/// lambda's body: its type is unknown, or a refinable function type other than `t`.
pub open spec fn lambda_proceeds(current: Option<TypeV>, t: TypeV) -> bool {
    match current {
        None => true,
        Some(c) => c != t && refinable(c),
    }
}

/// A statement whose check cannot fail: a comment, or a literal as an expression statement,
/// a yielded value or a returned value.
pub open spec fn plain_statement(s: Statement<()>) -> bool {
    match s {
        Statement::Comment(_) => true,
        Statement::Expression(e) => literal_type(e) is Some,
        Statement::YieldingExpression(e) => literal_type(e) is Some,
        Statement::Return(e) => literal_type(e) is Some,
        _ => false,
    }
}

/// A call without arguments of a name that resolves to a function of no parameters.
pub open spec fn nullary_call(p: Postfix<()>, frames: Seq<FrameV>) -> bool {
    &&& p matches Postfix::Call { expr, args, .. }
    &&& args@.len() == 0
    &&& *expr matches Expression::Id(id)
    &&& resolve(frames, id.name@) matches Some(Some(TypeV::Function(ps, _)))
    &&& ps.len() == 0
}

/// The rule that a checked expression obeys, by its kind: literals have their fixed types, an
/// identifier the type of what its name resolves to, and compound expressions the type their
/// rule gives for the types of their parts.
pub open spec fn expression_checked(
    e: Expression<()>,
    t: Expression<TypeInformation>,
    before: ScopeV,
) -> bool
    decreases e,
{
    match (e, t) {
        (Expression::Id(a), Expression::Id(b)) => a.name@ == b.name@ && a.position == b.position
            && resolve(before.frames, a.name@) == Some(ty(b.info)),
        (Expression::Num(Num::Integer(v, _, p)), Expression::Num(Num::Integer(w, info, q))) => v
            == w && p == q && ty(info) == Some(TypeV::Integer),
        (
            Expression::Num(Num::FloatingPoint(v, _, p)),
            Expression::Num(Num::FloatingPoint(w, info, q)),
        ) => v@ == w@ && p == q && ty(info) == Some(TypeV::FloatingPoint),
        (Expression::Bool(a), Expression::Bool(b)) => a.value == b.value && a.position
            == b.position && ty(b.info) == Some(TypeV::Boolean),
        (Expression::Character(a), Expression::Character(b)) => a.character == b.character
            && a.position == b.position && ty(b.info) == Some(TypeV::Character),
        (Expression::AstString(a), Expression::AstString(b)) => a.value@ == b.value@ && a.position
            == b.position && ty(b.info) == Some(TypeV::String),
        (Expression::Function(a), Expression::Function(b)) => function_rule(a, b, before.frames),
        (Expression::Lambda(a), Expression::Lambda(b)) => lambda_rule(a, b),
        (Expression::If(a), Expression::If(b)) => a.position == b.position && expression_checked(
            *a.condition,
            *b.condition,
            before,
        ) && required_rule(
            expr_ty(*b.condition),
            TypeV::Boolean,
        ) is None && if_rule(
            b.then_block.statements.len() > 0,
            b.else_block.statements.len() > 0,
            last_statement_type(b.then_block.statements@),
            last_statement_type(b.else_block.statements@),
        ) == Ok::<Option<TypeV>, (TypeV, TypeV)>(ty(b.info)),
        (Expression::Block(a), Expression::Block(b)) => a.position == b.position && ty(b.info)
            == block_rule(b.statements@),
        (Expression::Parens(a), Expression::Parens(b)) => expression_checked(*a, *b, before),
        (Expression::Postfix(a), Expression::Postfix(b)) => postfix_rule(a, b, before.methods)
            && expression_checked(*postfix_operand(a), *postfix_operand(b), before),
        (
            Expression::Prefix(Prefix::Negation { expr: a, position: p }),
            Expression::Prefix(Prefix::Negation { expr, position: q }),
        ) => p == q && expression_checked(*a, *expr, before) && required_rule(
            expr_ty(*expr),
            TypeV::Boolean,
        ) is None,
        (
            Expression::Prefix(Prefix::Minus { expr: a, position: p }),
            Expression::Prefix(Prefix::Minus { expr, position: q }),
        ) => p == q && expression_checked(*a, *expr, before) && (expr_ty(*expr) matches Some(t) ==> (t
            == TypeV::Integer || t == TypeV::FloatingPoint)),
        (Expression::Binary(a), Expression::Binary(b)) => a.operator == b.operator && a.position
            == b.position && expression_checked(a.left, b.left, before) && binary_rule(b.operator, expr_ty(b.left), expr_ty(b.right)) == Ok::<
            Option<TypeV>,
            (TypeV, TypeV),
        >(ty(b.info)),
        (
            Expression::Array(Array::Literal { values: vs, position: p, .. }),
            Expression::Array(Array::Literal { values, info, position: q }),
        ) => p == q && values@.len() == vs@.len() && first_element_mismatch(
            expression_types(values@),
            0,
        ) is None && ty(info) == array_literal_rule(expression_types(values@)),
        (
            Expression::Array(Array::Default { initial_value: a, .. }),
            Expression::Array(Array::Default { initial_value, info, .. }),
        ) => expression_checked(*a, *initial_value, before) && ty(info) == match expr_ty(
            *initial_value,
        ) {
            Some(t) => Some(TypeV::Array(Box::new(t))),
            None => None,
        },
        (Expression::StructInitialisation(a), Expression::StructInitialisation(b))
            => struct_initialisation_rule(a, b, before.frames),
        _ => false,
    }
}


/// Check an identifier: it has the type of what its name resolves to.
pub fn check_id(id: Id<()>, ctx: &Context) -> (r: Result<Id<TypeInformation>, TypeCheckError>)
    ensures
        match resolve(ctx@.frames, id.name@) {
            Some(t) => r matches Ok(c) && c.name@ == id.name@ && c.position == id.position && ty(
                c.info,
            ) == t && c.info.context@ == ctx@,
            None => r matches Err(e) && e matches TypeCheckError::UndefinedVariable(u, p)
                && u.variable_name@ == id.name@ && p == id.position,
        },
{
    let Id { name, position, .. } = id;
    match ctx.scope.resolve_name(name.as_str()) {
        Some(type_id) => Ok(Id { name, info: info_of(type_id, ctx.clone()), position }),
        None => Err(
            TypeCheckError::UndefinedVariable(UndefinedVariable { variable_name: name }, position),
        ),
    }
}

/// Check a list of expressions, from the first to the last.
#[verifier::loop_isolation(false)]
fn check_expressions(values: Vec<Expression<()>>, ctx: &mut Context, fuel: u64) -> (r: Result<
    Vec<Expression<TypeInformation>>,
    TypeCheckError,
>)
    ensures
        r is Ok ==> keeps_definitions(old(ctx)@, final(ctx)@),
        r matches Ok(out) ==> out@.len() == values@.len(),
        (forall|i: int| 0 <= i < values@.len() ==> literal_type(#[trigger] values@[i]) is Some)
            ==> r is Ok,
        all_simple(values@, old(ctx)@) ==> (r matches Ok(out) && final(ctx)@ == old(ctx)@
            && forall|i: int|
            0 <= i < values@.len() ==> expr_ty(#[trigger] out@[i]) == simple_type(
                values@[i],
                old(ctx)@,
            ) && out@[i].spec_position() == values@[i].spec_position()),
    decreases fuel, values,
{
    let ghost orig = values@;
    let mut rest = values;
    let mut out: Vec<Expression<TypeInformation>> = Vec::new();
    let ghost mut k: int = 0;
    while rest.len() > 0
        invariant
            0 <= k <= orig.len(),
            rest@ == orig.skip(k),
            out@.len() == k,
            keeps_definitions(old(ctx)@, ctx@),
            all_simple(orig, old(ctx)@) ==> ctx@ == old(ctx)@ && forall|i: int|
                0 <= i < k ==> expr_ty(#[trigger] out@[i]) == simple_type(orig[i], old(ctx)@)
                    && out@[i].spec_position() == orig[i].spec_position(),
        decreases rest.len(),
    {
        let item = rest.remove(0);
        proof {
            assert(item == orig[k]);
            assert(decreases_to!(values => orig[k]));
        }
        let checked = check_expression(item, ctx, fuel)?;
        out.push(checked);
        proof {
            assert(rest@ =~= orig.skip(k + 1));
            k = k + 1;
        }
    }
    Ok(out)
}

/// Check a list of statements, from the first to the last.
#[verifier::loop_isolation(false)]
fn check_statements(statements: Vec<Statement<()>>, ctx: &mut Context, fuel: u64) -> (r: Result<
    Vec<Statement<TypeInformation>>,
    TypeCheckError,
>)
    ensures
        r is Ok ==> keeps_definitions(old(ctx)@, final(ctx)@),
        r matches Ok(out) ==> out@.len() == statements@.len(),
        (forall|i: int| 0 <= i < statements@.len() ==> plain_statement(#[trigger] statements@[i]))
            ==> r is Ok,
        lone_yield(statements@) matches Some((t, p)) ==> (r matches Ok(out) && last_statement_type(out@)
            == Some(t) && out@[0].spec_position() == p && out@[0] is YieldingExpression),
        lone_value(statements@, old(ctx)@) matches Some((t, p)) ==> (r matches Ok(out)
            && last_statement_type(out@) == Some(t) && out@[0].spec_position() == p && final(ctx)@
            == old(ctx)@ && (out@[0] is YieldingExpression <==> statements@[0] is YieldingExpression)
            && (out@[0] is Expression <==> statements@[0] is Expression)),
    decreases fuel, statements,
{
    let ghost orig = statements@;
    let mut rest = statements;
    let mut out: Vec<Statement<TypeInformation>> = Vec::new();
    let ghost mut k: int = 0;
    while rest.len() > 0
        invariant
            0 <= k <= orig.len(),
            rest@ == orig.skip(k),
            out@.len() == k,
            keeps_definitions(old(ctx)@, ctx@),
            lone_yield(orig) matches Some((t, p)) ==> (k == 1 ==> last_statement_type(out@) == Some(t)
                && out@[0].spec_position() == p && out@[0] is YieldingExpression),
            lone_value(orig, old(ctx)@) matches Some((t, p)) ==> (ctx@ == old(ctx)@ && (k == 1
                ==> last_statement_type(out@) == Some(t) && out@[0].spec_position() == p && (
            out@[0] is YieldingExpression <==> orig[0] is YieldingExpression) && (out@[0] is Expression
                <==> orig[0] is Expression))),
        decreases rest.len(),
    {
        let item = rest.remove(0);
        proof {
            assert(item == orig[k]);
            assert(decreases_to!(statements => orig[k]));
            if lone_yield(orig) is Some || lone_value(orig, old(ctx)@) is Some {
                assert(seq![item] =~= orig);
            }
        }
        let checked = check_statement(item, ctx, fuel)?;
        let ghost before = out@;
        out.push(checked);
        proof {
            assert(rest@ =~= orig.skip(k + 1));
            if lone_yield(orig) is Some || lone_value(orig, old(ctx)@) is Some {
                assert(out@ =~= seq![checked]);
            }
            k = k + 1;
        }
    }
    Ok(out)
}

/// Check a block: its statements in order; an `if` or block that yields its value before the
/// last statement becomes an expression statement. The block has the type of its last
/// statement.
#[verifier::loop_isolation(false)]
pub fn check_block(b: Block<()>, ctx: &mut Context, fuel: u64) -> (r: Result<
    Block<TypeInformation>,
    TypeCheckError,
>)
    ensures
        r is Ok ==> keeps_definitions(old(ctx)@, final(ctx)@),
        r matches Ok(c) ==> c.position == b.position && ty(c.info) == block_rule(c.statements@)
            && c.statements@.len() == b.statements@.len(),
        (forall|i: int| 0 <= i < b.statements@.len() ==> plain_statement(#[trigger] b.statements@[i]))
            ==> r is Ok,
        lone_yield(b.statements@) matches Some((t, p)) ==> (r matches Ok(c) && last_statement_type(
            c.statements@,
        ) == Some(t) && c.statements@[0].spec_position() == p && ty(c.info) == Some(t)),
        lone_value(b.statements@, old(ctx)@) matches Some((t, p)) ==> (r matches Ok(c)
            && last_statement_type(c.statements@) == Some(t) && c.statements@[0].spec_position() == p
            && final(ctx)@ == old(ctx)@ && ty(c.info) == if b.statements@[0] is YieldingExpression {
            Some(t)
        } else {
            Some(TypeV::Void)
        }),
    decreases fuel, b,
{
    let Block { statements, position, .. } = b;
    let context = ctx.clone();
    let len = statements.len();
    let checked = check_statements(statements, ctx, fuel)?;
    let ghost orig = checked@;
    let mut rest = checked;
    let mut out: Vec<Statement<TypeInformation>> = Vec::new();
    let mut k: usize = 0;
    while rest.len() > 0
        invariant
            k <= orig.len(),
            orig.len() == len,
            rest@ == orig.skip(k as int),
            out@.len() == k,
            forall|j: int| 0 <= j < k && j + 1 == len ==> #[trigger] out@[j] == orig[j],
        decreases rest.len(),
    {
        let stmt = rest.remove(0);
        let stmt = if k + 1 < len {
            match stmt {
                Statement::YieldingExpression(Expression::Block(block)) => Statement::Expression(
                    Expression::Block(block),
                ),
                Statement::YieldingExpression(Expression::If(if_expression)) => Statement::Expression(
                    Expression::If(if_expression),
                ),
                other => other,
            }
        } else {
            stmt
        };
        out.push(stmt);
        proof {
            assert(rest@ =~= orig.skip(k + 1));
        }
        k = k + 1;
    }
    let type_id = block_type(&out);
    Ok(Block { statements: out, info: info_of(type_id, context), position })
}

/// Check a binary operation: both operands, then the rule for the operator.
pub fn check_binary(b: BinaryExpression<()>, ctx: &mut Context, fuel: u64) -> (r: Result<
    BinaryExpression<TypeInformation>,
    TypeCheckError,
>)
    ensures
        r is Ok ==> keeps_definitions(old(ctx)@, final(ctx)@),
        r matches Ok(c) ==> c.operator == b.operator && c.position == b.position && binary_rule(
            c.operator,
            expr_ty(c.left),
            expr_ty(c.right),
        ) == Ok::<Option<TypeV>, (TypeV, TypeV)>(ty(c.info)),
        r matches Ok(c) ==> expression_checked(b.left, c.left, old(ctx)@),
        literal_type(b.left) is Some && literal_type(b.right) is Some && binary_rule(
            b.operator,
            literal_type(b.left),
            literal_type(b.right),
        ) is Ok ==> r is Ok,
        simple_type(b.left, old(ctx)@) is Some && simple_type(b.right, old(ctx)@) is Some
            ==> match binary_rule(
            b.operator,
            simple_type(b.left, old(ctx)@),
            simple_type(b.right, old(ctx)@),
        ) {
            Ok(t) => r matches Ok(c) && ty(c.info) == t,
            Err(pair) => r matches Err(e) && is_unsupported_operation(e, pair, b.position),
        },
        simple_type(b.left, old(ctx)@) is Some && simple_type(b.right, old(ctx)@) is Some
            ==> final(ctx)@ == old(ctx)@,
    decreases fuel, b,
{
    let context = ctx.clone();
    let BinaryExpression { left, right, operator, position, .. } = b;
    let left = check_expression(left, ctx, fuel)?;
    let right = check_expression(right, ctx, fuel)?;
    let left_type = type_of(&left);
    let right_type = type_of(&right);
    let type_id = binary_type(operator, &left_type, &right_type, position)?;
    Ok(BinaryExpression { left, right, operator, info: info_of(type_id, context), position })
}

/// Check an `if`: the condition must be a truth value where its type is known; then both
/// branches; the type is given by the branch types.
pub fn check_if(i: If<()>, ctx: &mut Context, fuel: u64) -> (r: Result<
    If<TypeInformation>,
    TypeCheckError,
>)
    ensures
        r is Ok ==> keeps_definitions(old(ctx)@, final(ctx)@),
        r matches Ok(c) ==> c.position == i.position && required_rule(
            expr_ty(*c.condition),
            TypeV::Boolean,
        ) is None && if_rule(
            c.then_block.statements.len() > 0,
            c.else_block.statements.len() > 0,
            last_statement_type(c.then_block.statements@),
            last_statement_type(c.else_block.statements@),
        ) == Ok::<Option<TypeV>, (TypeV, TypeV)>(ty(c.info)),
        r matches Ok(c) ==> expression_checked(*i.condition, *c.condition, old(ctx)@),
        literal_type(*i.condition) == Some(TypeV::Boolean) && i.then_block.statements@.len() == 0
            && i.else_block.statements@.len() == 0 ==> r is Ok,
        simple_type(*i.condition, old(ctx)@) matches Some(ct) ==> (ct != TypeV::Boolean ==> (
        r matches Err(e) && is_mismatch(e, TypeV::Boolean, ct, i.condition.spec_position()))),
        simple_type(*i.condition, old(ctx)@) == Some(TypeV::Boolean) ==> (lone_value(
            i.then_block.statements@,
            old(ctx)@,
        ) matches Some((a, _)) ==> (lone_value(i.else_block.statements@, old(ctx)@) matches Some((b, pb)) ==> (if a
            == b {
            r matches Ok(c) && ty(c.info) == Some(a)
        } else {
            r matches Err(e) && is_mismatch(e, a, b, pb)
        }))),
        simple_type(*i.condition, old(ctx)@) == Some(TypeV::Boolean) && lone_value(
            i.then_block.statements@,
            old(ctx)@,
        ) is Some && lone_value(i.else_block.statements@, old(ctx)@) is Some ==> final(ctx)@ == old(
            ctx,
        )@,
    decreases fuel, i,
{
    let If { condition, then_block, else_block, position, .. } = i;
    let context = ctx.clone();
    let condition = check_expression(*condition, ctx, fuel)?;
    let condition_type = type_of(&condition);
    require_type(&condition_type, Type::Boolean, condition.position())?;
    let then_block = check_block(then_block, ctx, fuel)?;
    let else_block = check_block(else_block, ctx, fuel)?;
    let then_type = last_statement_type_of(&then_block.statements);
    let else_type = last_statement_type_of(&else_block.statements);
    let else_position = if else_block.statements.len() > 0 {
        else_block.statements[else_block.statements.len() - 1].position()
    } else {
        else_block.position
    };
    let type_id = if_type(
        then_block.statements.len() > 0,
        else_block.statements.len() > 0,
        &then_type,
        &else_type,
        else_position,
    )?;
    Ok(
        If {
            condition: Box::new(condition),
            then_block,
            else_block,
            info: info_of(type_id, context),
            position,
        },
    )
}

/// Check an expression by the rule of its kind.
#[verifier::spinoff_prover]
#[verifier::rlimit(80)]
pub fn check_expression(e: Expression<()>, ctx: &mut Context, fuel: u64) -> (r: Result<
    Expression<TypeInformation>,
    TypeCheckError,
>)
    ensures
        r is Ok ==> keeps_definitions(old(ctx)@, final(ctx)@),
        r matches Ok(t) ==> expression_checked(e, t, old(ctx)@),
        e is Num || e is Bool || e is Character || e is AstString ==> r is Ok && final(ctx)@ == old(
            ctx,
        )@,
        e matches Expression::Id(id) ==> (r is Ok <==> resolve(old(ctx)@.frames, id.name@) is Some),
        literal_type(e) matches Some(t) ==> (r matches Ok(c) && expr_ty(c) == Some(t)),
        simple_type(e, old(ctx)@) matches Some(t) ==> (r matches Ok(c) && expr_ty(c) == Some(t)
            && c.spec_position() == e.spec_position() && final(ctx)@ == old(ctx)@),
        e matches Expression::Lambda(l) ==> (lambda_plain(l, old(ctx)@.frames) ==> (r matches Ok(c)
            && (l.parameters@.len() > 0 ==> expr_ty(c) is None))),
        e matches Expression::Binary(b) && literal_type(b.left) is Some && literal_type(b.right) is Some
            && binary_rule(b.operator, literal_type(b.left), literal_type(b.right)) is Ok ==> r is Ok,
        e matches Expression::Prefix(Prefix::Negation { expr, .. }) && literal_type(*expr) == Some(
            TypeV::Boolean,
        ) ==> r is Ok,
        e matches Expression::Prefix(Prefix::Minus { expr, .. }) && (literal_type(*expr) == Some(
            TypeV::Integer,
        ) || literal_type(*expr) == Some(TypeV::FloatingPoint)) ==> r is Ok,
        e matches Expression::Array(Array::Literal { values, .. }) && values@.len() == 0 ==> r is Ok,
        e matches Expression::Array(Array::Literal { values, .. }) ==> (all_simple(
            values@,
            old(ctx)@,
        ) ==> match first_element_mismatch(simple_opt_types(values@, old(ctx)@), 0) {
            Some((i, actual)) => r matches Err(x) && is_mismatch(
                x,
                simple_type(values@[0], old(ctx)@)->Some_0,
                actual,
                values@[i].spec_position(),
            ),
            None => r matches Ok(c) && expr_ty(c) == array_literal_rule(
                simple_opt_types(values@, old(ctx)@),
            ),
        }),
        e matches Expression::Array(Array::Default { initial_value, .. }) && literal_type(
            *initial_value,
        ) is Some ==> r is Ok,
    decreases fuel, e,
{
    match e {
        Expression::Id(id) => Ok(Expression::Id(check_id(id, ctx)?)),
        Expression::Num(Num::Integer(v, _, p)) => Ok(
            Expression::Num(Num::Integer(v, info_of(Some(Type::Integer), ctx.clone()), p)),
        ),
        Expression::Num(Num::FloatingPoint(v, _, p)) => Ok(
            Expression::Num(
                Num::FloatingPoint(v, info_of(Some(Type::FloatingPoint), ctx.clone()), p),
            ),
        ),
        Expression::Bool(b) => Ok(
            Expression::Bool(
                Bool {
                    value: b.value,
                    position: b.position,
                    info: info_of(Some(Type::Boolean), ctx.clone()),
                },
            ),
        ),
        Expression::Character(c) => Ok(
            Expression::Character(
                Character {
                    character: c.character,
                    position: c.position,
                    info: info_of(Some(Type::Character), ctx.clone()),
                },
            ),
        ),
        Expression::AstString(s) => {
            let AstString { value, position, .. } = s;
            Ok(
                Expression::AstString(
                    AstString { value, info: info_of(Some(Type::String), ctx.clone()), position },
                ),
            )
        },
        Expression::Function(f) => Ok(Expression::Function(check_function(f, ctx, fuel)?)),
        Expression::Lambda(l) => Ok(Expression::Lambda(check_lambda(l, ctx, fuel)?)),
        Expression::If(i) => Ok(Expression::If(check_if(i, ctx, fuel)?)),
        Expression::Block(b) => Ok(Expression::Block(check_block(b, ctx, fuel)?)),
        Expression::Parens(inner) => Ok(
            Expression::Parens(Box::new(check_expression(*inner, ctx, fuel)?)),
        ),
        Expression::Postfix(p) => {
            proof {
                if simple_type(e, old(ctx)@) is Some && p is Call {
                    let ps = simple_type(*p->Call_expr, old(ctx)@)->Some_0->Function_0;
                    assert(simple_types(p->Call_args@, old(ctx)@) =~= ps);
                }
            }
            Ok(Expression::Postfix(check_postfix(p, ctx, fuel)?))
        },
        Expression::Prefix(Prefix::Negation { expr, position }) => {
            let expr = check_expression(*expr, ctx, fuel)?;
            let t = type_of(&expr);
            require_type(&t, Type::Boolean, expr.position())?;
            Ok(Expression::Prefix(Prefix::Negation { expr: Box::new(expr), position }))
        },
        Expression::Prefix(Prefix::Minus { expr, position }) => {
            let expr = check_expression(*expr, ctx, fuel)?;
            let t = type_of(&expr);
            require_number(&t, expr.position())?;
            Ok(Expression::Prefix(Prefix::Minus { expr: Box::new(expr), position }))
        },
        Expression::Binary(b) => Ok(Expression::Binary(Box::new(check_binary(*b, ctx, fuel)?))),
        Expression::Array(Array::Literal { values, position, .. }) => {
            let ghost orig = values@;
            let context = ctx.clone();
            let values = check_expressions(values, ctx, fuel)?;
            let mut types: Vec<Option<Type>> = Vec::new();
            let mut positions: Vec<Span> = Vec::new();
            let mut k: usize = 0;
            while k < values.len()
                invariant
                    k <= values@.len(),
                    types@.len() == k,
                    positions@.len() == k,
                    forall|j: int| 0 <= j < k ==> opt_view(#[trigger] types@[j]) == expr_ty(values@[j]),
                    forall|j: int| 0 <= j < k ==> #[trigger] positions@[j] == values@[j].spec_position(),
                decreases values.len() - k,
            {
                types.push(type_of(&values[k]));
                positions.push(values[k].position());
                k = k + 1;
            }
            proof {
                assert(types@.map_values(|t: Option<Type>| opt_view(t)) =~= expression_types(values@));
                if simple_type(e, old(ctx)@) is Some {
                    assert(all_simple(orig, old(ctx)@));
                    let ts = simple_opt_types(orig, old(ctx)@);
                    assert forall|i: int| 0 <= i < ts.len() implies #[trigger] ts[i] == ts[0] by {
                        assert(simple_type(orig[i], old(ctx)@) == simple_type(orig[0], old(ctx)@));
                    }
                    lemma_no_element_mismatch(ts, 0);
                }
                if all_simple(orig, old(ctx)@) {
                    let ts = simple_opt_types(orig, old(ctx)@);
                    assert(types@.map_values(|t: Option<Type>| opt_view(t)) =~= ts);
                    lemma_first_element_mismatch(ts, 0);
                    if first_element_mismatch(ts, 0) is Some {
                        let i = first_element_mismatch(ts, 0)->Some_0.0;
                        assert(positions@[i] == orig[i].spec_position());
                    }
                }
            }
            let type_id = array_literal_type(&types, &positions)?;
            Ok(
                Expression::Array(
                    Array::Literal { values, info: info_of(type_id, context), position },
                ),
            )
        },
        Expression::Array(Array::Default { initial_value, length, position, .. }) => {
            let context = ctx.clone();
            let initial_value = check_expression(*initial_value, ctx, fuel)?;
            let length = match length {
                Num::Integer(v, _, p) => Num::Integer(v, info_of(Some(Type::Integer), ctx.clone()), p),
                Num::FloatingPoint(v, _, p) => Num::FloatingPoint(
                    v,
                    info_of(Some(Type::FloatingPoint), ctx.clone()),
                    p,
                ),
            };
            let type_id = match type_of(&initial_value) {
                Some(t) => Some(Type::Array(Box::new(t))),
                None => None,
            };
            Ok(
                Expression::Array(
                    Array::Default {
                        initial_value: Box::new(initial_value),
                        length,
                        info: info_of(type_id, context),
                        position,
                    },
                ),
            )
        },
        Expression::StructInitialisation(s) => {
            proof {
                if simple_type(e, old(ctx)@) is Some {
                    let d = lookup_type(old(ctx)@.frames, s.id.name@)->Some_0->Struct_1;
                    assert(simple_fields(s.fields@, old(ctx)@));
                    assert forall|j: int| 0 <= j < d.len() implies field_initialised(
                        s.fields@,
                        old(ctx)@,
                        #[trigger] d[j],
                    ) by {
                        assert(0 <= last_field(s.fields@, d[j].0) < s.fields.len());
                    }
                }
            }
            Ok(Expression::StructInitialisation(check_struct_initialisation(s, ctx, fuel)?))
        },
    }
}



/// The error for a type that could not be pushed into a node because the budget of re-checks
/// is spent; the budget is large enough that no program reaches it.
fn budget_spent(t: &Type, position: Span) -> (e: TypeCheckError)
    ensures
        e matches TypeCheckError::TypeMismatch(m, p) && m.expected@ == t@ && m.actual
            == Type::Unknown && p == position,
{
    TypeCheckError::TypeMismatch(
        TypeMismatch { expected: t.clone(), actual: Type::Unknown },
        position,
    )
}

/// Check a postfix expression: a call, an index or a property access.
#[verifier::loop_isolation(false)]
pub fn check_postfix(p: Postfix<()>, ctx: &mut Context, fuel: u64) -> (r: Result<
    Postfix<TypeInformation>,
    TypeCheckError,
>)
    ensures
        r is Ok ==> keeps_definitions(old(ctx)@, final(ctx)@),
        r matches Ok(c) ==> (c is Index ==> p is Index) && (c is Call ==> p is Call) && (
        c is PropertyAccess ==> p is PropertyAccess),
        r matches Ok(Postfix::Index { expr, index, info, .. }) ==> index_rule(
            expr_ty(*expr),
            expr_ty(*index),
        ) == Ok::<Option<TypeV>, (TypeV, TypeV, bool)>(ty(info)),
        r matches Ok(Postfix::Call { expr, args, info, .. }) ==> match expr_ty(*expr) {
            None => ty(info) is None,
            Some(TypeV::Function(ps, rv)) => ty(info) == Some(*rv) && args@.len() == ps.len()
                && forall|i: int|
                0 <= i < ps.len() ==> expr_ty(#[trigger] args@[i]) == Some(ps[i]) || (ps[i]
                    == TypeV::Unknown && expr_ty(args@[i]) is None),
            Some(_) => false,
        },
        r matches Ok(Postfix::PropertyAccess { expr, property, info, .. }) ==> ty(property.info)
            == ty(info) && match expr_ty(*expr) {
            None => ty(info) is None,
            Some(t) => ty(info) == property_of(old(ctx)@.methods, t, property.name@) && ty(
                info,
            ) is Some,
        },
        r matches Ok(c) ==> postfix_rule(p, c, old(ctx)@.methods),
        r matches Ok(c) ==> expression_checked(*postfix_operand(p), *postfix_operand(c), old(ctx)@),
        nullary_call(p, old(ctx)@.frames) ==> r is Ok,
        r matches Ok(c) ==> c.spec_position() == p.spec_position(),
        call_types(p, old(ctx)@) is Some ==> final(ctx)@ == old(ctx)@,
        p matches Postfix::Index { expr, index, .. } ==> (simple_type(*expr, old(ctx)@) is Some
            && simple_type(*index, old(ctx)@) is Some ==> final(ctx)@ == old(ctx)@),
        p matches Postfix::PropertyAccess { expr, .. } ==> (simple_type(*expr, old(ctx)@) is Some
            ==> final(ctx)@ == old(ctx)@),
        call_types(p, old(ctx)@) matches Some((ft, ats)) ==> (!(ft matches TypeV::Function(
            ps,
            _,
        ) && ps.len() == ats.len()) ==> (r matches Err(e) && is_mismatch(
            e,
            TypeV::Function(ats, Box::new(TypeV::Unknown)),
            ft,
            p->Call_position,
        ))),
        call_types(p, old(ctx)@) matches Some((ft, ats)) ==> (ft matches TypeV::Function(ps, rv)
            ==> (ps == ats ==> (r matches Ok(Postfix::Call { info, .. }) && ty(info) == Some(*rv)))),
        call_types(p, old(ctx)@) matches Some((ft, ats)) ==> (ft matches TypeV::Function(ps, rv)
            ==> forall|j: int|
            ps.len() == ats.len() && 0 <= j < ats.len() && #[trigger] ats[j] != ps[j] && (forall|k: int|
                0 <= k < j ==> ats[k] == ps[k]) ==> (r matches Err(e) && is_mismatch(
                e,
                ps[j],
                ats[j],
                p->Call_args@[j].spec_position(),
            ))),
        p matches Postfix::Index { expr, index, .. } ==> (simple_type(*expr, old(ctx)@) is Some
            && simple_type(*index, old(ctx)@) is Some ==> match index_rule(
            simple_type(*expr, old(ctx)@),
            simple_type(*index, old(ctx)@),
        ) {
            Ok(t) => r matches Ok(Postfix::Index { info, .. }) && ty(info) == t,
            Err(x) => r matches Err(e) && is_mismatch(
                e,
                x.0,
                x.1,
                if x.2 {
                    index.spec_position()
                } else {
                    expr.spec_position()
                },
            ),
        }),
        p matches Postfix::PropertyAccess { expr, property, .. } ==> (simple_type(
            *expr,
            old(ctx)@,
        ) matches Some(t) ==> match property_of(old(ctx)@.methods, t, property.name@) {
            Some(pt) => r matches Ok(Postfix::PropertyAccess { info, .. }) && ty(info) == Some(pt),
            None => r matches Err(TypeCheckError::UndefinedVariable(u, pos)) && u.variable_name@
                == property.name@ && pos == property.position,
        }),
    decreases fuel, p,
{
    let context = ctx.clone();
    match p {
        Postfix::Call { expr, args, position, .. } => {
            let expr = check_expression(*expr, ctx, fuel)?;
            let expr_type = type_of(&expr);
            proof {
                if nullary_call(p, old(ctx)@.frames) {
                    assert(expr_ty(expr) == resolve(old(ctx)@.frames, (*p->Call_expr)->Id_0.name@)->Some_0);
                }
            }
            let ghost simple = call_types(p, old(ctx)@) is Some;
            let ghost ats = simple_types(p->Call_args@, old(ctx)@);
            let mut args = check_expressions(args, ctx, fuel)?;
            proof {
                if simple {
                    assert(expr_ty(expr) == Some(call_types(p, old(ctx)@)->Some_0.0));
                    assert(forall|j: int| 0 <= j < args@.len() ==> expr_ty(#[trigger] args@[j]) == Some(ats[j]));
                }
            }
            let mut arg_types: Vec<Type> = Vec::new();
            let mut k: usize = 0;
            while k < args.len()
                invariant
                    k <= args@.len(),
                    arg_types@.len() == k,
                    forall|j: int|
                        0 <= j < k ==> #[trigger] arg_types@[j]@ == match expr_ty(args@[j]) {
                            Some(t) => t,
                            None => TypeV::Unknown,
                        },
                decreases args.len() - k,
            {
                let t = match type_of(&args[k]) {
                    Some(t) => t,
                    None => Type::Unknown,
                };
                arg_types.push(t);
                k = k + 1;
            }
            proof {
                if simple {
                    lemma_view_types(arg_types@);
                    assert(view_types(arg_types@) =~= ats);
                    assert(opt_view(expr_type) == Some(call_types(p, old(ctx)@)->Some_0.0));
                    assert(call_types(p, old(ctx)@)->Some_0.1 == ats);
                }
            }
            let type_id = match expr_type {
                Some(Type::Function { params, return_value }) => {
                    proof {
                        lemma_view_types(params@);
                    }
                    if params.len() != args.len() {
                        let expected_type = Type::Function {
                            params: arg_types,
                            return_value: Box::new(Type::Unknown),
                        };
                        let actual_type = Type::Function { params, return_value };
                        proof {
                            if simple {
                                assert(Type::Unknown@ == TypeV::Unknown);
                                assert(expected_type@ == TypeV::Function(ats, Box::new(TypeV::Unknown)));
                                assert(actual_type@ == call_types(p, old(ctx)@)->Some_0.0);
                                assert(position == p->Call_position);
                            }
                        }
                        return Err(
                            TypeCheckError::TypeMismatch(
                                TypeMismatch {
                                    expected: expected_type,
                                    actual: actual_type,
                                },
                                position,
                            ),
                        );
                    }
                    let mut i: usize = 0;
                    proof {
                        lemma_view_types(params@);
                    }
                    while i < args.len()
                        invariant
                            i <= args@.len(),
                            args@.len() == params@.len(),
                            arg_types@.len() == args@.len(),
                            forall|j: int|
                                i <= j < args@.len() ==> #[trigger] arg_types@[j]@ == match expr_ty(args@[j]) {
                                    Some(t) => t,
                                    None => TypeV::Unknown,
                                },
                            forall|j: int|
                                0 <= j < i ==> expr_ty(#[trigger] args@[j]) == Some(params@[j]@) || (
                                params@[j]@ == TypeV::Unknown && expr_ty(args@[j]) is None),
                            simple ==> forall|j: int| 0 <= j < i ==> #[trigger] ats[j] == view_types(params@)[j],
                            simple ==> forall|j: int|
                                i <= j < args@.len() ==> (#[trigger] args@[j]).spec_position()
                                    == p->Call_args@[j].spec_position(),
                        decreases args.len() - i,
                    {
                        let expected = params[i].clone();
                        let actual = arg_types[i].clone();
                        if !actual.type_eq(&expected) {
                            if actual.type_eq(&Type::Unknown) {
                                if fuel == 0 {
                                    return Err(budget_spent(&expected, args[i].position()));
                                }
                                update_expression(&mut args[i], expected, fuel - 1)?;
                            } else {
                                let at = args[i].position();
                                proof {
                                    if simple {
                                        let ps = view_types(params@);
                                        assert(ats[i as int] != ps[i as int]);
                                        assert forall|j: int|
                                            0 <= j < ats.len() && ats[j] != ps[j] && (forall|k: int|
                                                0 <= k < j ==> ats[k] == ps[k]) implies j == i by {
                                            if j > i {
                                                assert(ats[i as int] == ps[i as int]);
                                            }
                                        }
                                    }
                                }
                                return Err(
                                    TypeCheckError::TypeMismatch(
                                        TypeMismatch { expected, actual },
                                        at,
                                    ),
                                );
                            }
                        }
                        i = i + 1;
                    }
                    Some(*return_value)
                },
                Some(t) => {
                    let expected_type = Type::Function {
                        params: arg_types,
                        return_value: Box::new(Type::Unknown),
                    };
                    proof {
                        if simple {
                            assert(Type::Unknown@ == TypeV::Unknown);
                            assert(expected_type@ == TypeV::Function(ats, Box::new(TypeV::Unknown)));
                        }
                    }
                    return Err(
                        TypeCheckError::TypeMismatch(
                            TypeMismatch { expected: expected_type, actual: t },
                            position,
                        ),
                    );
                },
                None => None,
            };
            Ok(
                Postfix::Call {
                    expr: Box::new(expr),
                    args,
                    info: info_of(type_id, context),
                    position,
                },
            )
        },
        Postfix::Index { expr, index, position, .. } => {
            let expr = check_expression(*expr, ctx, fuel)?;
            let index = check_expression(*index, ctx, fuel)?;
            let expr_type = type_of(&expr);
            let index_type_id = type_of(&index);
            let type_id = index_type(&expr_type, &index_type_id, expr.position(), index.position())?;
            Ok(
                Postfix::Index {
                    expr: Box::new(expr),
                    index: Box::new(index),
                    info: info_of(type_id, context),
                    position,
                },
            )
        },
        Postfix::PropertyAccess { expr, property, position, .. } => {
            let expr = check_expression(*expr, ctx, fuel)?;
            let Id { name: property_name, position: property_position, .. } = property;
            let type_id = match type_of(&expr) {
                Some(t) => match ctx.scope.resolve_property_for_type(&t, property_name.as_str()) {
                    Some(p) => Some(p),
                    None => {
                        return Err(
                            TypeCheckError::UndefinedVariable(
                                UndefinedVariable { variable_name: property_name },
                                property_position,
                            ),
                        );
                    },
                },
                None => None,
            };
            let property_type = clone_option(&type_id);
            Ok(
                Postfix::PropertyAccess {
                    expr: Box::new(expr),
                    property: Id {
                        name: property_name,
                        info: info_of(property_type, context.clone()),
                        position: property_position,
                    },
                    info: info_of(type_id, context),
                    position,
                },
            )
        },
    }
}

/// The fields a struct type declares, in order.
pub open spec fn declared_fields(t: Option<TypeV>) -> Seq<(Seq<char>, TypeV)> {
    match t {
        Some(TypeV::Struct(_, fs)) => fs,
        _ => Seq::empty(),
    }
}

/// Checked field initialisations that initialise the declared fields, in their order, each
/// with the declared type.
pub open spec fn initialises_fields(
    fields: Seq<StructFieldInitialisation<TypeInformation>>,
    declared: Seq<(Seq<char>, TypeV)>,
) -> bool {
    &&& fields.len() == declared.len()
    &&& forall|j: int|
        0 <= j < declared.len() ==> #[trigger] fields[j].name.name@ == declared[j].0 && ty(
            fields[j].info,
        ) == Some(declared[j].1)
}

/// The position of the last field initialisation with the given name, or -1 where none has
/// it.
pub open spec fn last_field(fs: Seq<StructFieldInitialisation<()>>, n: Seq<char>) -> int
    decreases fs.len(),
{
    if fs.len() == 0 {
        -1
    } else if fs.last().name.name@ == n {
        fs.len() - 1
    } else {
        last_field(fs.drop_last(), n)
    }
}

proof fn lemma_last_field(fs: Seq<StructFieldInitialisation<()>>, n: Seq<char>)
    ensures
        -1 <= last_field(fs, n) < fs.len(),
        last_field(fs, n) >= 0 ==> fs[last_field(fs, n)].name.name@ == n,
        forall|m: int| last_field(fs, n) < m < fs.len() ==> fs[m].name.name@ != n,
    decreases fs.len(),
{
    if fs.len() > 0 && fs.last().name.name@ != n {
        lemma_last_field(fs.drop_last(), n);
        assert forall|m: int| last_field(fs, n) < m < fs.len() implies fs[m].name.name@ != n by {
            if m < fs.len() - 1 {
                assert(fs[m] == fs.drop_last()[m]);
            }
        }
    }
}

/// Whether the declared field `d` is initialised, by its last initialisation, with a simple
/// operand of its type.
pub open spec fn field_initialised(
    fs: Seq<StructFieldInitialisation<()>>,
    s: ScopeV,
    d: (Seq<char>, TypeV),
) -> bool {
    last_field(fs, d.0) >= 0 && simple_type(fs[last_field(fs, d.0)].value, s) == Some(d.1)
}

/// Whether every field initialisation has a simple operand of a type other than `Unknown` as
/// its value.
pub open spec fn simple_fields(fs: Seq<StructFieldInitialisation<()>>, s: ScopeV) -> bool {
    forall|i: int|
        0 <= i < fs.len() ==> simple_type(#[trigger] fs[i].value, s) is Some && simple_type(
            fs[i].value,
            s,
        ) != Some(TypeV::Unknown)
}

/// Whether no two declared fields have the same name.
pub open spec fn distinct_names(d: Seq<(Seq<char>, TypeV)>) -> bool {
    forall|a: int, b: int| 0 <= a < b < d.len() ==> #[trigger] d[a].0 != #[trigger] d[b].0
}

/// Check a struct initialisation: the struct type must be defined; every field it declares
/// must be initialised with a value of the declared type; the fields come out in the order
/// of the declaration.
#[verifier::loop_isolation(false)]
#[verifier::spinoff_prover]
pub fn check_struct_initialisation(s: StructInitialisation<()>, ctx: &mut Context, fuel: u64) -> (r:
    Result<StructInitialisation<TypeInformation>, TypeCheckError>)
    ensures
        r is Ok ==> keeps_definitions(old(ctx)@, final(ctx)@),
        r matches Ok(c) ==> c.position == s.position && c.id.name@ == s.id.name@,
        !(lookup_type(old(ctx)@.frames, s.id.name@) matches Some(TypeV::Struct(_, _))) ==> (r matches Err(
            e,
        ) && e is UndefinedType),
        r matches Ok(c) ==> ty(c.info) == lookup_type(old(ctx)@.frames, s.id.name@)
            && initialises_fields(c.fields@, declared_fields(ty(c.info))),
        r matches Ok(c) ==> struct_initialisation_rule(s, c, old(ctx)@.frames),
        lookup_type(old(ctx)@.frames, s.id.name@) matches Some(TypeV::Struct(_, d)) ==> (simple_fields(
            s.fields@,
            old(ctx)@,
        ) && distinct_names(d) ==> ((forall|j: int|
            0 <= j < d.len() ==> field_initialised(s.fields@, old(ctx)@, #[trigger] d[j]))
            ==> r is Ok)),
        lookup_type(old(ctx)@.frames, s.id.name@) matches Some(TypeV::Struct(_, d)) ==> (simple_fields(
            s.fields@,
            old(ctx)@,
        ) && distinct_names(d) ==> forall|j: int|
            0 <= j < d.len() && !field_initialised(s.fields@, old(ctx)@, #[trigger] d[j]) && (
            forall|k: int| 0 <= k < j ==> field_initialised(s.fields@, old(ctx)@, d[k])) ==> (if last_field(
                s.fields@,
                d[j].0,
            ) < 0 {
                r matches Err(TypeCheckError::UndefinedVariable(u, pos)) && u.variable_name@
                    == s.id.name@ + "."@ + d[j].0 && pos == s.position
            } else {
                r matches Err(e) && is_mismatch(
                    e,
                    d[j].1,
                    simple_type(s.fields@[last_field(s.fields@, d[j].0)].value, old(ctx)@)->Some_0,
                    s.fields@[last_field(s.fields@, d[j].0)].position,
                )
            })),
        simple_fields(s.fields@, old(ctx)@) ==> final(ctx)@ == old(ctx)@,
    decreases fuel, s,
{
    let context = ctx.clone();
    let StructInitialisation { id, fields, position: struct_position, .. } = s;
    let Id { name, position: id_position, .. } = id;
    let found_type = ctx.scope.get_type(name.as_str());
    let (struct_name, struct_fields) = match found_type {
        Some(Type::Struct(n, f)) => (n, f),
        _ => {
            return Err(
                TypeCheckError::UndefinedType(
                    UndefinedType { type_annotation: TypeName::Literal(name, Span { start: 0, end: 0 }) },
                    struct_position,
                ),
            );
        },
    };
    let ghost orig = fields@;
    let ghost scope = old(ctx)@;
    let ghost simple = simple_fields(orig, scope);
    let mut rest = fields;
    let mut slots: Vec<Option<StructFieldInitialisation<TypeInformation>>> = Vec::new();
    let ghost mut k: int = 0;
    while rest.len() > 0
        invariant
            0 <= k <= orig.len(),
            rest@ == orig.skip(k),
            keeps_definitions(old(ctx)@, ctx@),
            slots@.len() == k,
            simple ==> ctx@ == old(ctx)@,
            simple ==> forall|i: int|
                0 <= i < k ==> (#[trigger] slots@[i] matches Some(f) && f.name.name@ == orig[i].name.name@
                    && ty(f.info) == simple_type(orig[i].value, scope) && f.position == orig[i].position),
        decreases rest.len(),
    {
        let field = rest.remove(0);
        proof {
            assert(field == orig[k]);
            assert(decreases_to!(fields => orig[k]));
            assert(decreases_to!(orig[k] => orig[k].value));
        }
        let field_context = ctx.clone();
        let StructFieldInitialisation { name: field_name, value, position: field_position, .. } = field;
        let value = check_expression(value, ctx, fuel)?;
        let value_type = type_of(&value);
        let field_type = clone_option(&value_type);
        slots.push(
            Some(
                StructFieldInitialisation {
                    name: Id {
                        name: field_name.name,
                        info: info_of(field_type, field_context.clone()),
                        position: field_name.position,
                    },
                    value,
                    info: info_of(value_type, field_context),
                    position: field_position,
                },
            ),
        );
        proof {
            assert(rest@ =~= orig.skip(k + 1));
            k = k + 1;
        }
    }
    let mut checked: Vec<StructFieldInitialisation<TypeInformation>> = Vec::new();
    let mut j: usize = 0;
    proof {
        lemma_view_fields(struct_fields@);
    }
    let ghost d = view_fields(struct_fields@);
    let ghost plain = simple && distinct_names(d);
    while j < struct_fields.len()
        invariant
            j <= struct_fields@.len(),
            checked@.len() == j,
            slots@.len() == orig.len(),
            d == view_fields(struct_fields@),
            d.len() == struct_fields@.len(),
            forall|i: int| 0 <= i < struct_fields@.len() ==> #[trigger] d[i] == (struct_fields@[i].0@, struct_fields@[i].1@),
            plain ==> forall|i: int|
                0 <= i < orig.len() ==> (#[trigger] slots@[i] matches Some(f) ==> f.name.name@ == orig[i].name.name@
                    && ty(f.info) == simple_type(orig[i].value, scope) && f.position == orig[i].position),
            plain ==> forall|i: int|
                0 <= i < orig.len() ==> (#[trigger] slots@[i] is None ==> exists|jj: int|
                    0 <= jj < j && last_field(orig, d[jj].0) == i),
            plain ==> forall|jj: int| 0 <= jj < j ==> field_initialised(orig, scope, #[trigger] d[jj]),
            forall|i: int|
                0 <= i < j ==> #[trigger] checked@[i].name.name@ == struct_fields@[i].0@ && ty(
                    checked@[i].info,
                ) == Some(struct_fields@[i].1@),
        decreases struct_fields.len() - j,
    {
        let declared_name = &struct_fields[j].0;
        let declared_type = &struct_fields[j].1;
        let mut found: Option<usize> = None;
        let mut m: usize = slots.len();
        while m > 0 && found.is_none()
            invariant
                m <= slots@.len(),
                found matches Some(x) ==> x < slots@.len() && (slots@[x as int] matches Some(f)
                    && f.name.name@ == declared_name@),
                forall|i: int|
                    m <= i < slots@.len() && (found matches Some(x) ==> i != x) ==> !(
                    #[trigger] slots@[i] matches Some(f) && f.name.name@ == declared_name@),
                found matches Some(x) ==> x >= m,
            decreases m,
        {
            let matches = match &slots[m - 1] {
                Some(f) => f.name.name == *declared_name,
                None => false,
            };
            if matches {
                found = Some(m - 1);
            }
            m = m - 1;
        }
        let ghost before_take = slots@;
        let ghost lf = last_field(orig, d[j as int].0);
        proof {
            if plain {
                lemma_last_field(orig, d[j as int].0);
                assert(declared_name@ == d[j as int].0);
                if lf >= 0 {
                    if slots@[lf] is None {
                        let jj = choose|jj: int| 0 <= jj < j && last_field(orig, d[jj].0) == lf;
                        lemma_last_field(orig, d[jj].0);
                        assert(d[jj].0 != d[j as int].0);
                    }
                    assert(slots@[lf] matches Some(f) && f.name.name@ == declared_name@);
                    if found is None {
                        assert(!(slots@[lf] matches Some(f) && f.name.name@ == declared_name@));
                    }
                    let x = found->Some_0 as int;
                    if x > lf {
                        assert(orig[x].name.name@ == d[j as int].0);
                    }
                    if x < lf {
                        assert(!(slots@[lf] matches Some(f) && f.name.name@ == declared_name@));
                    }
                    assert(x == lf);
                } else {
                    if found is Some {
                        let x = found->Some_0 as int;
                        assert(orig[x].name.name@ == d[j as int].0);
                    }
                }
            }
        }
        let index = match found {
            Some(x) => x,
            None => {
                let mut variable_name = name.clone();
                variable_name.append(".");
                variable_name.append(declared_name.as_str());
                return Err(
                    TypeCheckError::UndefinedVariable(
                        UndefinedVariable { variable_name },
                        struct_position,
                    ),
                );
            },
        };
        let mut slot: Option<StructFieldInitialisation<TypeInformation>> = None;
        std::mem::swap(&mut slot, &mut slots[index]);
        let mut initialised = match slot {
            Some(f) => f,
            None => {
                let mut variable_name = name.clone();
                variable_name.append(".");
                variable_name.append(declared_name.as_str());
                return Err(
                    TypeCheckError::UndefinedVariable(
                        UndefinedVariable { variable_name },
                        struct_position,
                    ),
                );
            },
        };
        match clone_option(&initialised.info.type_id) {
            Some(field_type) => {
                if !field_type.type_eq(declared_type) {
                    return Err(
                        TypeCheckError::TypeMismatch(
                            TypeMismatch { expected: declared_type.clone(), actual: field_type },
                            initialised.position,
                        ),
                    );
                }
            },
            None => {
                if fuel == 0 {
                    return Err(budget_spent(declared_type, initialised.position));
                }
                update_expression(&mut initialised.value, declared_type.clone(), fuel - 1)?;
                initialised.info.type_id = Some(declared_type.clone());
                initialised.name.info.type_id = Some(declared_type.clone());
            },
        }
        checked.push(initialised);
        proof {
            if plain {
                assert(index == lf);
                assert(field_initialised(orig, scope, d[j as int]));
                assert forall|i: int|
                    0 <= i < orig.len() && #[trigger] slots@[i] is None implies exists|jj: int|
                        0 <= jj < j + 1 && last_field(orig, d[jj].0) == i by {
                    if i == index {
                        assert(0 <= j < j + 1 && last_field(orig, d[j as int].0) == i);
                    } else {
                        assert(slots@[i] == before_take[i]);
                        let jj = choose|jj: int| 0 <= jj < j && last_field(orig, d[jj].0) == i;
                        assert(0 <= jj < j + 1 && last_field(orig, d[jj].0) == i);
                    }
                }
            }
        }
        j = j + 1;
    }
    proof {
        lemma_view_fields(struct_fields@);
    }
    let struct_type = Type::Struct(struct_name, struct_fields);
    let info = info_of(Some(struct_type), context);
    let id_info = info.clone();
    let result = StructInitialisation {
        id: Id { name, info: id_info, position: id_position },
        fields: checked,
        info,
        position: struct_position,
    };
    proof {
        assert(initialises_fields(result.fields@, view_fields(struct_fields@)));
    }
    Ok(result)
}

/// Binding a variable in the innermost frame keeps the other variables bound.
proof fn lemma_variable_stays(before: ScopeV, after: ScopeV, p: Seq<char>, m: Seq<char>)
    requires
        before.frames.len() > 0,
        after.frames == before.frames.update(
            before.frames.len() - 1,
            frame_with_variable(
                before.frames.last(),
                p,
                BindingV { type_id: None, mutable: false },
            ),
        ),
        lookup_variable(before.frames, m) is Some,
    ensures
        lookup_variable(after.frames, m) is Some,
{
    assert(after.frames.drop_last() =~= before.frames.drop_last());
}

/// Check a lambda: its parameters are bound, without types, in a new scope for its body. A
/// lambda without parameters whose body has a known type is a function of no arguments
/// returning it; otherwise its type is not known yet.
#[verifier::loop_isolation(false)]
pub fn check_lambda(l: Lambda<()>, ctx: &mut Context, fuel: u64) -> (r: Result<
    Lambda<TypeInformation>,
    TypeCheckError,
>)
    ensures
        r is Ok ==> keeps_definitions(old(ctx)@, final(ctx)@),
        r matches Ok(c) ==> c.position == l.position && c.parameters@.len() == l.parameters@.len()
            && ty(c.info) == (if c.parameters@.len() == 0 && expr_ty(*c.expression) is Some {
            Some(TypeV::Function(Seq::empty(), Box::new(expr_ty(*c.expression).unwrap())))
        } else {
            None
        }),
        r matches Ok(c) ==> lambda_rule(l, c),
        l.parameters@.len() == 0 && literal_type(*l.expression) is Some ==> r is Ok,
        lambda_plain(l, old(ctx)@.frames) ==> r is Ok,
        r is Ok ==> final(ctx)@ == old(ctx)@,
        l.parameters@.len() == 0 ==> (literal_type(*l.expression) matches Some(t) ==> (r matches Ok(c)
            && ty(c.info) == Some(TypeV::Function(Seq::empty(), Box::new(t))))),
    decreases fuel, l,
{
    let Lambda { parameters, expression, position, .. } = l;
    let context = ctx.clone();
    ctx.scope.enter_scope();
    let ghost entered = ctx@;
    let mut checked: Vec<LambdaParameter<TypeInformation>> = Vec::new();
    let ghost orig = parameters@;
    let mut rest = parameters;
    proof {
        assert forall|n: Seq<char>| #[trigger] lookup_constant(entered.frames, n) == lookup_constant(
            old(ctx)@.frames,
            n,
        ) by {
            assert(entered.frames.drop_last() =~= old(ctx)@.frames);
        }
    }
    while rest.len() > 0
        invariant
            checked@.len() + rest@.len() == orig.len(),
            keeps_definitions(entered, ctx@),
            rest@ == orig.skip(checked@.len() as int),
            entered.frames.len() > 0,
            entered.frames == old(ctx)@.frames.push(empty_frame()),
            forall|n: Seq<char>| #[trigger] lookup_constant(entered.frames, n) == lookup_constant(
                old(ctx)@.frames,
                n,
            ),
            forall|j: int|
                0 <= j < checked@.len() ==> lookup_variable(ctx@.frames, #[trigger] orig[j].name.name@)
                    is Some,
        decreases rest.len(),
    {
        let ghost k = checked@.len() as int;
        let param = rest.remove(0);
        let ghost before = ctx@;
        proof {
            assert(param == orig[k]);
            assert(rest@ =~= orig.skip(k + 1));
            lemma_keeps_definitions_lookups(entered, before, param.name.name@);
        }
        let ghost pname = param.name.name@;
        let checked_param = check_lambda_parameter(param, ctx)?;
        proof {
            assert forall|j: int| 0 <= j < k + 1 implies lookup_variable(ctx@.frames, #[trigger] orig[j].name.name@)
                is Some by {
                if j < k {
                    lemma_variable_stays(before, ctx@, pname, orig[j].name.name@);
                }
            }
        }
        checked.push(checked_param);
    }
    let checked_expression = check_expression(*expression, ctx, fuel)?;
    proof {
        lemma_frame_round_trip(old(ctx)@.frames, ctx@.frames, ctx@.methods);
    }
    ctx.scope.exit_scope();
    let type_id = if checked.len() == 0 {
        match type_of(&checked_expression) {
            Some(t) => {
                let params: Vec<Type> = Vec::new();
                proof {
                    lemma_view_types(params@);
                }
                assert(view_types(params@) =~= Seq::<TypeV>::empty());
                Some(Type::Function { params, return_value: Box::new(t) })
            },
            None => None,
        }
    } else {
        None
    };
    Ok(
        Lambda {
            parameters: checked,
            expression: Box::new(checked_expression),
            info: info_of(type_id, context),
            position,
        },
    )
}

/// Whether a function's parameter and return type names resolve in the frames and no
/// parameter has the name of a constant.
pub open spec fn signature_checks(f: Function<()>, frames: Seq<FrameV>) -> bool {
    &&& resolve_type_names(parameter_type_names(f.parameters@), frames) is Ok
    &&& resolve_type_name(f.return_type@, frames) is Ok
    &&& forall|k: int|
        0 <= k < f.parameters@.len() ==> lookup_constant(frames, #[trigger] f.parameters@[k].name.name@)
            is None
}

/// Whether a function's body has its return type on the plainest bodies: an empty body for a
/// `void` function, or a body that yields one literal of the return type.
pub open spec fn body_fits(f: Function<()>, frames: Seq<FrameV>) -> bool {
    ||| f.body.statements@.len() == 0 && resolve_type_name(f.return_type@, frames) == Ok::<
        TypeV,
        TypeNameView,
    >(TypeV::Void)
    ||| lone_yield(f.body.statements@) matches Some((t, _)) && resolve_type_name(
        f.return_type@,
        frames,
    ) == Ok::<TypeV, TypeNameView>(t)
}

/// Check a function: its parameters, with their annotated types, and its body in a new scope;
/// the body must have the annotated return type. The function has the type of its signature.
#[verifier::loop_isolation(false)]
pub fn check_function(f: Function<()>, ctx: &mut Context, fuel: u64) -> (r: Result<
    Function<TypeInformation>,
    TypeCheckError,
>)
    ensures
        r is Ok ==> keeps_definitions(old(ctx)@, final(ctx)@),
        r matches Ok(c) ==> c.position == f.position && c.id.name@ == f.id.name@,
        r matches Ok(c) ==> resolve_type_names(parameter_type_names(f.parameters@), old(ctx)@.frames)
            matches Ok(ps) && resolve_type_name(f.return_type@, old(ctx)@.frames) matches Ok(rt)
            && ty(c.info) == Some(TypeV::Function(ps, Box::new(rt))) && (ty(c.body.info) == Some(rt)
            || (rt == TypeV::Void && ty(c.body.info) is None)),
        r matches Ok(c) ==> function_rule(f, c, old(ctx)@.frames),
        f.parameters@.len() == 0 && resolve_type_name(f.return_type@, old(ctx)@.frames) == Ok::<
            TypeV,
            TypeNameView,
        >(TypeV::Void) && f.body.statements@.len() == 0 ==> r is Ok,
        f.parameters@.len() == 0 ==> match resolve_type_name(f.return_type@, old(ctx)@.frames) {
            Err(_) => r matches Err(TypeCheckError::UndefinedType(u, pos)) && u.type_annotation@
                == f.return_type@ && pos == f.return_type.spec_position(),
            Ok(rt) => lone_yield(f.body.statements@) matches Some((t, _)) ==> if t == rt {
                r is Ok
            } else {
                r matches Err(e) && is_mismatch(e, rt, t, f.body.position)
            },
        },
        r is Ok ==> final(ctx)@ == old(ctx)@,
        signature_checks(f, old(ctx)@.frames) ==> (lone_yield(f.body.statements@) matches Some((t, _))
            ==> (if Some(t) == resolve_type_name(f.return_type@, old(ctx)@.frames).ok() {
            r matches Ok(c) && ty(c.info) == Some(
                TypeV::Function(
                    resolve_type_names(parameter_type_names(f.parameters@), old(ctx)@.frames)->Ok_0,
                    Box::new(t),
                ),
            )
        } else {
            r matches Err(e) && is_mismatch(
                e,
                resolve_type_name(f.return_type@, old(ctx)@.frames)->Ok_0,
                t,
                f.body.position,
            )
        })),
        signature_checks(f, old(ctx)@.frames) && body_fits(f, old(ctx)@.frames) ==> r is Ok,
        r matches Ok(c) ==> ty(c.id.info) == ty(c.info),
    decreases fuel, f,
{
    ctx.scope.enter_scope();
    let ghost entered = ctx@;
    let Function { id, parameters, return_type, body, position, .. } = f;
    let ghost orig = parameters@;
    let ghost names = parameter_type_names(orig);
    let mut checked: Vec<FunctionParameter<TypeInformation>> = Vec::new();
    let mut param_types: Vec<Type> = Vec::new();
    let mut rest = parameters;
    while rest.len() > 0
        invariant
            keeps_definitions(entered, ctx@),
            entered.frames == old(ctx)@.frames.push(empty_frame()),
            names == parameter_type_names(orig),
            checked@.len() == param_types@.len(),
            checked@.len() <= orig.len(),
            rest@ == orig.skip(checked@.len() as int),
            resolve_type_names(names.take(checked@.len() as int), old(ctx)@.frames) == Ok::<
                Seq<TypeV>,
                TypeNameView,
            >(view_types(param_types@)),
        decreases rest.len(),
    {
        let ghost k = checked@.len() as int;
        let param = rest.remove(0);
        proof {
            assert(param == orig[k]);
            assert(rest@ =~= orig.skip(k + 1));
            lemma_resolution_inside_frame(old(ctx)@, entered, ctx@, param.type_annotation@);
        }
        let ghost before = ctx@;
        let ghost param_ghost = param;
        let checked_param = check_function_parameter(param, ctx);
        proof {
            if checked_param is Err && signature_checks(f, old(ctx)@.frames) {
                assert(param_ghost == orig[k]);
                assert(lookup_constant(old(ctx)@.frames, orig[k].name.name@) is None);
                lemma_keeps_definitions_lookups(entered, before, param_ghost.name.name@);
                assert(entered.frames.drop_last() =~= old(ctx)@.frames);
                assert(lookup_constant(entered.frames, param_ghost.name.name@) == lookup_constant(
                    old(ctx)@.frames,
                    param_ghost.name.name@,
                ));
                assert(resolve_type_name(param_ghost.type_annotation@, old(ctx)@.frames) is Err);
                assert(names.take(k + 1).drop_last() =~= names.take(k));
                assert(names.take(k + 1).last() == orig[k].type_annotation@);
                lemma_resolve_names_prefix_error(names, k + 1, old(ctx)@.frames);
            }
        }
        let param = checked_param?;
        let type_id = match &param.info.type_id {
            Some(t) => t.clone(),
            None => Type::Unknown,
        };
        proof {
            assert(names.take(k + 1).drop_last() =~= names.take(k));
            assert(names.take(k + 1).last() == orig[k].type_annotation@);
            assert(param_types@.push(type_id).drop_last() =~= param_types@);
        }
        checked.push(param);
        param_types.push(type_id);
    }
    proof {
        assert(names.take(orig.len() as int) =~= names);
        lemma_resolution_inside_frame(old(ctx)@, entered, ctx@, return_type@);
    }
    let return_type_id = match Type::from_type_name(&return_type, ctx) {
        Ok(t) => t,
        Err(_) => {
            let at = return_type.position();
            return Err(
                TypeCheckError::UndefinedType(UndefinedType { type_annotation: return_type }, at),
            );
        },
    };
    let mut body = check_block(body, ctx, fuel)?;
    match clone_option(&body.info.type_id) {
        Some(inferred) => {
            if !inferred.type_eq(&return_type_id) {
                return Err(
                    TypeCheckError::TypeMismatch(
                        TypeMismatch { expected: return_type_id, actual: inferred },
                        body.position,
                    ),
                );
            }
        },
        None => {
            if !return_type_id.type_eq(&Type::Void) {
                let failed = if fuel == 0 {
                    true
                } else {
                    update_block(&mut body, return_type_id.clone(), fuel - 1).is_err()
                };
                if failed {
                    return Err(
                        TypeCheckError::TypeMismatch(
                            TypeMismatch { expected: return_type_id, actual: Type::Void },
                            return_type.position(),
                        ),
                    );
                }
            }
        },
    }
    proof {
        lemma_frame_round_trip(old(ctx)@.frames, ctx@.frames, ctx@.methods);
    }
    ctx.scope.exit_scope();
    let function_type = Type::Function { params: param_types, return_value: Box::new(return_type_id) };
    let info = info_of(Some(function_type), ctx.clone());
    let id_info = info.clone();
    Ok(
        Function {
            id: Id { name: id.name, info: id_info, position: id.position },
            parameters: checked,
            return_type,
            body,
            info,
            position,
        },
    )
}



/// The `void` type information.
fn void_info(context: Context) -> (r: TypeInformation)
    ensures
        ty(r) == Some(TypeV::Void),
{
    info_of(Some(Type::Void), context)
}

/// Check a variable initialisation: the value, then the annotated type, which the value must
/// have (a value of unknown type is given it); without an annotation the value's type must be
/// known. The variable is bound in the innermost frame, unless a constant has its name.
#[verifier::loop_isolation(false)]
pub fn check_initialisation(i: Initialisation<()>, ctx: &mut Context, fuel: u64) -> (r: Result<
    Initialisation<TypeInformation>,
    TypeCheckError,
>)
    ensures
        r is Ok ==> keeps_definitions(old(ctx)@, final(ctx)@),
        r matches Ok(c) ==> c.position == i.position && c.mutable == i.mutable && c.id.name@
            == i.id.name@ && ty(c.info) == Some(TypeV::Void) && ty(c.id.info) is Some,
        r is Ok ==> lookup_constant(old(ctx)@.frames, i.id.name@) is None,
        r matches Ok(c) ==> match i.type_annotation {
            Some(a) => resolve_type_name(a@, old(ctx)@.frames) == Ok::<TypeV, TypeNameView>(
                ty(c.id.info).unwrap(),
            ) && expr_ty(c.value) == ty(c.id.info),
            None => expr_ty(c.value) == ty(c.id.info),
        },
        r matches Ok(c) ==> (old(ctx)@.frames.len() > 0 ==> lookup_variable(
            final(ctx)@.frames,
            i.id.name@,
        ) == Some(BindingV { type_id: ty(c.id.info), mutable: i.mutable })),
        literal_type(i.value) is Some && lookup_constant(old(ctx)@.frames, i.id.name@) is None && (
        match i.type_annotation {
            Some(a) => resolve_type_name(a@, old(ctx)@.frames) == Ok::<TypeV, TypeNameView>(
                literal_type(i.value)->Some_0,
            ),
            None => true,
        }) ==> r is Ok,
        simple_type(i.value, old(ctx)@) matches Some(vt) ==> match i.type_annotation {
            Some(a) => match resolve_type_name(a@, old(ctx)@.frames) {
                Err(_) => r matches Err(TypeCheckError::UndefinedType(u, pos)) && u.type_annotation@
                    == a@ && pos == a.spec_position(),
                Ok(t) => if t != vt {
                    r matches Err(x) && is_mismatch(x, t, vt, i.value.spec_position())
                } else if lookup_constant(old(ctx)@.frames, i.id.name@) is Some {
                    r matches Err(TypeCheckError::RedefinedConstant(rc, pos)) && rc.constant_name@
                        == i.id.name@ && pos == i.id.position
                } else {
                    r matches Ok(c) && ty(c.id.info) == Some(vt)
                },
            },
            None => if lookup_constant(old(ctx)@.frames, i.id.name@) is Some {
                r matches Err(TypeCheckError::RedefinedConstant(rc, pos)) && rc.constant_name@
                    == i.id.name@ && pos == i.id.position
            } else {
                r matches Ok(c) && ty(c.id.info) == Some(vt)
            },
        },
        i.type_annotation is None ==> (i.value matches Expression::Array(Array::Literal { values, .. })
            ==> (values@.len() == 0 ==> (r matches Err(TypeCheckError::MissingInitialisationType(_, pos))
            && pos == i.position))),
        i.type_annotation is None ==> (i.value matches Expression::Lambda(l) ==> (l.parameters@.len() > 0
            && lambda_plain(l, old(ctx)@.frames) ==> (r matches Err(
            TypeCheckError::MissingInitialisationType(_, pos),
        ) && pos == i.position))),
    decreases fuel, i,
{
    let Initialisation { id, mutable, type_annotation, value, position: init_position, .. } = i;
    let context = ctx.clone();
    let Id { name, position: id_position, .. } = id;
    let mut value = check_expression(value, ctx, fuel)?;
    proof {
        lemma_keeps_definitions_lookups(old(ctx)@, ctx@, name@);
        if type_annotation is Some {
            lemma_same_resolution(old(ctx)@, ctx@, type_annotation->0@);
        }
    }
    let mut value_type = type_of(&value);
    match &type_annotation {
        Some(annotation) => match Type::from_type_name(annotation, ctx) {
            Ok(t) => match clone_option(&value_type) {
                Some(actual) => {
                    if !t.type_eq(&actual) {
                        return Err(
                            TypeCheckError::TypeMismatch(
                                TypeMismatch { expected: t, actual },
                                value.position(),
                            ),
                        );
                    }
                },
                None => {
                    if fuel == 0 {
                        return Err(budget_spent(&t, value.position()));
                    }
                    update_expression(&mut value, t.clone(), fuel - 1)?;
                    value_type = Some(t);
                },
            },
            Err(_) => {
                let at = annotation.position();
                return Err(
                    TypeCheckError::UndefinedType(
                        UndefinedType { type_annotation: annotation.clone() },
                        at,
                    ),
                );
            },
        },
        None => {
            if value_type.is_none() {
                return Err(
                    TypeCheckError::MissingInitialisationType(
                        MissingInitialisationType,
                        init_position,
                    ),
                );
            }
        },
    }
    let bound = clone_option(&value_type);
    if ctx.scope.add_variable(name.as_str(), bound, mutable).is_err() {
        return Err(
            TypeCheckError::RedefinedConstant(RedefinedConstant { constant_name: name }, id_position),
        );
    }
    Ok(
        Initialisation {
            id: Id { name, info: info_of(value_type, ctx.clone()), position: id_position },
            mutable,
            type_annotation,
            value,
            info: void_info(context),
            position: init_position,
        },
    )
}

/// Check a constant inside a body: the annotated type must resolve and the value must have it
/// (a value of unknown type is given it).
pub fn check_constant(c: Constant<()>, ctx: &mut Context, fuel: u64) -> (r: Result<
    Constant<TypeInformation>,
    TypeCheckError,
>)
    ensures
        r is Ok ==> keeps_definitions(old(ctx)@, final(ctx)@),
        r matches Ok(x) ==> x.position == c.position && x.id.name@ == c.id.name@ && ty(x.info)
            == Some(TypeV::Void),
        r matches Ok(x) ==> ty(x.id.info) is Some && resolve_type_name(
            c.type_annotation@,
            old(ctx)@.frames,
        ) == Ok::<TypeV, TypeNameView>(ty(x.id.info).unwrap()) && expr_ty(x.value) == ty(x.id.info),
        literal_type(c.value) is Some && resolve_type_name(c.type_annotation@, old(ctx)@.frames)
            == Ok::<TypeV, TypeNameView>(literal_type(c.value)->Some_0) ==> r is Ok,
        simple_type(c.value, old(ctx)@) matches Some(vt) ==> match resolve_type_name(
            c.type_annotation@,
            old(ctx)@.frames,
        ) {
            Err(_) => r matches Err(TypeCheckError::InvalidConstantType(ic, pos)) && ic.constant_name@
                == c.id.name@ && pos == c.type_annotation.spec_position(),
            Ok(t) => if t != vt {
                r matches Err(x) && is_mismatch(x, t, vt, c.value.spec_position())
            } else {
                r matches Ok(x) && ty(x.id.info) == Some(vt)
            },
        },
    decreases fuel, c,
{
    let Constant { id, type_annotation, value, position: const_position, .. } = c;
    let context = ctx.clone();
    let Id { name, position: id_position, .. } = id;
    let mut value = check_expression(value, ctx, fuel)?;
    proof {
        lemma_same_resolution(old(ctx)@, ctx@, type_annotation@);
    }
    let t = match Type::from_type_name(&type_annotation, ctx) {
        Ok(t) => t,
        Err(_) => {
            return Err(
                TypeCheckError::InvalidConstantType(
                    InvalidConstantType { constant_name: name },
                    type_annotation.position(),
                ),
            );
        },
    };
    match type_of(&value) {
        Some(actual) => {
            if !t.type_eq(&actual) {
                return Err(
                    TypeCheckError::TypeMismatch(
                        TypeMismatch { expected: t, actual },
                        value.position(),
                    ),
                );
            }
        },
        None => {
            if fuel == 0 {
                return Err(budget_spent(&t, value.position()));
            }
            update_expression(&mut value, t.clone(), fuel - 1)?;
        },
    }
    Ok(
        Constant {
            id: Id { name, info: info_of(Some(t), ctx.clone()), position: id_position },
            type_annotation,
            value,
            info: void_info(context),
            position: const_position,
        },
    )
}

/// Check an assignment: the assigned variable must not be immutable; the target and the value
/// are checked, and their known types must agree (a value of unknown type gets the target's).
#[verifier::loop_isolation(false)]
pub fn check_assignment(a: Assignment<()>, ctx: &mut Context, fuel: u64) -> (r: Result<
    Assignment<TypeInformation>,
    TypeCheckError,
>)
    ensures
        r is Ok ==> keeps_definitions(old(ctx)@, final(ctx)@),
        r matches Ok(x) ==> x.position == a.position && ty(x.info) == Some(TypeV::Void),
        !lvalue_names_variable(a.lvalue) ==> (r matches Err(e) && e is UndefinedVariable),
        lvalue_names_variable(a.lvalue) ==> (lookup_variable(
            old(ctx)@.frames,
            lvalue_variable(a.lvalue).name@,
        ) matches Some(b) ==> (!b.mutable ==> (r matches Err(e) && e is ImmutableReassign))),
        r matches Ok(x) ==> match lvalue_type(x.lvalue) {
            Some(v) => expr_ty(x.rvalue) == Some(v),
            None => true,
        },
        a.lvalue matches LValue::Id(id) ==> (lookup_variable(old(ctx)@.frames, id.name@) matches Some(b)
            ==> (lookup_constant(old(ctx)@.frames, id.name@) is None && b.mutable ==> (simple_type(
            a.rvalue,
            old(ctx)@,
        ) matches Some(vt) ==> match b.type_id {
            Some(v) => if v == vt {
                r is Ok
            } else {
                r matches Err(e) && is_mismatch(e, v, vt, a.rvalue.spec_position())
            },
            None => r is Ok,
        }))),
    decreases fuel, a,
{
    let context = ctx.clone();
    let Assignment { lvalue, rvalue, position, .. } = a;
    let name = match &lvalue {
        LValue::Id(id) => id.name.clone(),
        LValue::Postfix(p) => {
            if !accessed_name_known(p) {
                return Err(
                    TypeCheckError::UndefinedVariable(
                        UndefinedVariable { variable_name: String::new() },
                        position,
                    ),
                );
            }
            LValue::get_original_variable_name_from_postfix(p).name
        },
    };
    if let Some(false) = ctx.scope.is_variable_mutable(name.as_str()) {
        return Err(
            TypeCheckError::ImmutableReassign(ImmutableReassign { variable_name: name }, position),
        );
    }
    let lvalue = match lvalue {
        LValue::Id(id) => LValue::Id(check_id(id, ctx)?),
        LValue::Postfix(p) => LValue::Postfix(check_postfix(p, ctx, fuel)?),
    };
    let mut rvalue = check_expression(rvalue, ctx, fuel)?;
    let variable_type = match &lvalue {
        LValue::Id(id) => clone_option(&id.info.type_id),
        LValue::Postfix(Postfix::Call { info, .. }) => clone_option(&info.type_id),
        LValue::Postfix(Postfix::Index { info, .. }) => clone_option(&info.type_id),
        LValue::Postfix(Postfix::PropertyAccess { info, .. }) => clone_option(&info.type_id),
    };
    match (variable_type, type_of(&rvalue)) {
        (Some(v), Some(t)) => {
            if !v.type_eq(&t) {
                return Err(
                    TypeCheckError::TypeMismatch(
                        TypeMismatch { expected: v, actual: t },
                        rvalue.position(),
                    ),
                );
            }
        },
        (Some(v), None) => {
            if fuel == 0 {
                return Err(budget_spent(&v, rvalue.position()));
            }
            update_expression(&mut rvalue, v, fuel - 1)?;
        },
        _ => {},
    }
    Ok(Assignment { lvalue, rvalue, info: void_info(context), position })
}

/// The known type of a checked assignment target.
pub open spec fn lvalue_type(l: LValue<TypeInformation>) -> Option<TypeV> {
    match l {
        LValue::Id(id) => ty(id.info),
        LValue::Postfix(p) => ty(p.spec_info()),
    }
}

/// Whether a chain of index and property accesses ends in a plain identifier.
fn accessed_name_known(p: &Postfix<()>) -> (b: bool)
    ensures
        b == crate::parser::ast::accesses_variable(*p),
    decreases p,
{
    match p {
        Postfix::Call { .. } => false,
        Postfix::Index { expr, .. } | Postfix::PropertyAccess { expr, .. } => match &**expr {
            Expression::Id(_) => true,
            Expression::Postfix(inner) => accessed_name_known(inner),
            _ => false,
        },
    }
}

/// Check a `while` loop: the condition must be a truth value where its type is known.
pub fn check_while(w: WhileLoop<()>, ctx: &mut Context, fuel: u64) -> (r: Result<
    WhileLoop<TypeInformation>,
    TypeCheckError,
>)
    ensures
        r is Ok ==> keeps_definitions(old(ctx)@, final(ctx)@),
        r matches Ok(x) ==> x.position == w.position && ty(x.info) == Some(TypeV::Void)
            && required_rule(expr_ty(x.condition), TypeV::Boolean) is None,
        literal_type(w.condition) == Some(TypeV::Boolean) && (forall|i: int|
            0 <= i < w.block.statements@.len() ==> plain_statement(#[trigger] w.block.statements@[i]))
            ==> r is Ok,
    decreases fuel, w,
{
    let WhileLoop { condition, block, position, .. } = w;
    let context = ctx.clone();
    let condition = check_expression(condition, ctx, fuel)?;
    let condition_type = type_of(&condition);
    require_type(&condition_type, Type::Boolean, condition.position())?;
    let block = check_block(block, ctx, fuel)?;
    Ok(WhileLoop { condition, block, info: void_info(context), position })
}

/// Check a declaration: its type name must resolve. It binds nothing here (at top level it is
/// bound as a constant beforehand).
pub fn check_declaration(d: Declaration<()>, ctx: &Context) -> (r: Result<
    Declaration<TypeInformation>,
    TypeCheckError,
>)
    ensures
        r matches Ok(x) ==> x.position == d.position && x.name.name@ == d.name.name@ && ty(x.info)
            == Some(TypeV::Void),
        r is Ok <==> resolve_type_name(d.type_annotation@, ctx@.frames) is Ok,
        r matches Ok(x) ==> resolve_type_name(d.type_annotation@, ctx@.frames) == Ok::<
            TypeV,
            TypeNameView,
        >(ty(x.name.info).unwrap()) && ty(x.name.info) is Some,
        r matches Err(e) ==> e is UndefinedType,
{
    let Declaration { name, type_annotation, position: dec_position, .. } = d;
    let context = ctx.clone();
    let Id { name, position: id_position, .. } = name;
    let type_id = match Type::from_type_name(&type_annotation, ctx) {
        Ok(t) => t,
        Err(_) => {
            let at = type_annotation.position();
            return Err(
                TypeCheckError::UndefinedType(UndefinedType { type_annotation }, at),
            );
        },
    };
    Ok(
        Declaration {
            name: Id { name, info: info_of(Some(type_id), context.clone()), position: id_position },
            type_annotation,
            info: void_info(context),
            position: dec_position,
        },
    )
}

/// Check a struct declaration: the type of every field must resolve.
pub fn check_struct_declaration(d: StructDeclaration<()>, ctx: &Context) -> (r: Result<
    StructDeclaration<TypeInformation>,
    TypeCheckError,
>)
    ensures
        r matches Ok(x) ==> x.position == d.position && x.id.name@ == d.id.name@ && x.fields@.len()
            == d.fields@.len() && ty(x.info) == Some(TypeV::Void),
        r is Ok <==> forall|j: int|
            0 <= j < d.fields@.len() ==> resolve_type_name(
                #[trigger] d.fields@[j].type_annotation@,
                ctx@.frames,
            ) is Ok,
        r matches Ok(x) ==> forall|j: int|
            0 <= j < x.fields@.len() ==> #[trigger] x.fields@[j].name.name@ == d.fields@[j].name.name@
                && ty(x.fields@[j].info) is Some && resolve_type_name(
                d.fields@[j].type_annotation@,
                ctx@.frames,
            ) == Ok::<TypeV, TypeNameView>(ty(x.fields@[j].info).unwrap()),
        r matches Err(e) ==> e is UndefinedType,
{
    let StructDeclaration { id, fields, position: struct_position, .. } = d;
    let context = ctx.clone();
    let Id { name, position: id_position, .. } = id;
    let ghost orig = fields@;
    let mut checked: Vec<StructFieldDeclaration<TypeInformation>> = Vec::new();
    let mut rest = fields;
    while rest.len() > 0
        invariant
            orig == d.fields@,
            checked@.len() <= orig.len(),
            rest@ == orig.skip(checked@.len() as int),
            forall|j: int|
                0 <= j < checked@.len() ==> #[trigger] checked@[j].name.name@ == orig[j].name.name@
                    && ty(checked@[j].info) is Some && resolve_type_name(
                    orig[j].type_annotation@,
                    ctx@.frames,
                ) == Ok::<TypeV, TypeNameView>(ty(checked@[j].info).unwrap()),
        decreases rest.len(),
    {
        let ghost k = checked@.len() as int;
        let field = rest.remove(0);
        proof {
            assert(field == orig[k]);
            assert(rest@ =~= orig.skip(k + 1));
        }
        let StructFieldDeclaration { name: field_name, type_annotation, position, .. } = field;
        let type_id = match Type::from_type_name(&type_annotation, ctx) {
            Ok(t) => t,
            Err(_) => {
                proof {
                    assert(resolve_type_name(d.fields@[k].type_annotation@, ctx@.frames) is Err);
                }
                return Err(
                    TypeCheckError::UndefinedType(UndefinedType { type_annotation }, position),
                );
            },
        };
        let info = info_of(Some(type_id), ctx.clone());
        let name_info = info.clone();
        checked.push(
            StructFieldDeclaration {
                name: Id { name: field_name.name, info: name_info, position: field_name.position },
                type_annotation,
                info,
                position,
            },
        );
    }
    proof {
        assert forall|j: int| 0 <= j < d.fields@.len() implies resolve_type_name(
            #[trigger] d.fields@[j].type_annotation@,
            ctx@.frames,
        ) is Ok by {
            assert(checked@[j].name.name@ == orig[j].name.name@);
        }
    }
    let info = void_info(context);
    let id_info = info.clone();
    Ok(
        StructDeclaration {
            id: Id { name, info: id_info, position: id_position },
            fields: checked,
            info,
            position: struct_position,
        },
    )
}

/// The rule that a checked statement obeys, by its kind: expressions by the rule of
/// expressions, functions by that of functions, and statements that bind or declare are of
/// type `void`.
pub open spec fn statement_checked(
    s: Statement<()>,
    t: Statement<TypeInformation>,
    before: ScopeV,
) -> bool {
    match (s, t) {
        (Statement::Function(a), Statement::Function(b)) => function_rule(a, b, before.frames),
        (Statement::WhileLoop(_), Statement::WhileLoop(b)) => ty(b.info) == Some(TypeV::Void)
            && required_rule(expr_ty(b.condition), TypeV::Boolean) is None,
        (Statement::Initialization(_), Statement::Initialization(b)) => ty(b.info) == Some(
            TypeV::Void,
        ),
        (Statement::Constant(_), Statement::Constant(b)) => ty(b.info) == Some(TypeV::Void),
        (Statement::Assignment(_), Statement::Assignment(b)) => ty(b.info) == Some(TypeV::Void),
        (Statement::Expression(a), Statement::Expression(b)) => expression_checked(a, b, before),
        (Statement::YieldingExpression(a), Statement::YieldingExpression(b)) => expression_checked(
            a,
            b,
            before,
        ),
        (Statement::Return(a), Statement::Return(b)) => expression_checked(a, b, before),
        (Statement::Comment(a), Statement::Comment(b)) => a == b,
        (Statement::Declaration(_), Statement::Declaration(b)) => ty(b.info) == Some(TypeV::Void),
        (Statement::StructDeclaration(_), Statement::StructDeclaration(b)) => ty(b.info) == Some(
            TypeV::Void,
        ),
        _ => false,
    }
}

/// Check a statement by the rule of its kind.
pub fn check_statement(s: Statement<()>, ctx: &mut Context, fuel: u64) -> (r: Result<
    Statement<TypeInformation>,
    TypeCheckError,
>)
    ensures
        r is Ok ==> keeps_definitions(old(ctx)@, final(ctx)@),
        r matches Ok(t) ==> (t is Comment <==> s is Comment) && (t is Expression <==> s is Expression)
            && (t is YieldingExpression <==> s is YieldingExpression),
        r matches Ok(t) ==> statement_checked(s, t, old(ctx)@),
        plain_statement(s) ==> r is Ok && final(ctx)@ == old(ctx)@,
        lone_yield(seq![s]) matches Some((t, p)) ==> (r matches Ok(c) && last_statement_type(seq![c])
            == Some(t) && c.spec_position() == p),
        lone_value(seq![s], old(ctx)@) matches Some((t, p)) ==> (r matches Ok(c)
            && last_statement_type(seq![c]) == Some(t) && c.spec_position() == p && final(ctx)@ == old(
            ctx,
        )@),
    decreases fuel, s,
{
    match s {
        Statement::Function(f) => Ok(Statement::Function(check_function(f, ctx, fuel)?)),
        Statement::WhileLoop(w) => Ok(Statement::WhileLoop(check_while(w, ctx, fuel)?)),
        Statement::Initialization(i) => Ok(
            Statement::Initialization(check_initialisation(i, ctx, fuel)?),
        ),
        Statement::Constant(c) => Ok(Statement::Constant(check_constant(c, ctx, fuel)?)),
        Statement::Assignment(a) => Ok(Statement::Assignment(check_assignment(a, ctx, fuel)?)),
        Statement::Expression(e) => Ok(Statement::Expression(check_expression(e, ctx, fuel)?)),
        Statement::YieldingExpression(e) => Ok(
            Statement::YieldingExpression(check_expression(e, ctx, fuel)?),
        ),
        Statement::Return(e) => Ok(Statement::Return(check_expression(e, ctx, fuel)?)),
        Statement::Comment(c) => Ok(Statement::Comment(c)),
        Statement::Declaration(d) => Ok(Statement::Declaration(check_declaration(d, ctx)?)),
        Statement::StructDeclaration(d) => Ok(
            Statement::StructDeclaration(check_struct_declaration(d, ctx)?),
        ),
    }
}

/// Give a node that carries its own type information the type `t`, unless it already has
/// another type.
fn set_type(info: &mut TypeInformation, t: Type, position: Span) -> (r: Result<(), TypeCheckError>)
    ensures
        r is Ok <==> (ty(*old(info)) is None || ty(*old(info)) == Some(t@)),
        r is Ok ==> ty(*final(info)) == Some(t@) && final(info).context == old(info).context,
        r is Err ==> *final(info) == *old(info),
{
    match &info.type_id {
        Some(current) => {
            if !current.type_eq(&t) {
                return Err(
                    TypeCheckError::TypeMismatch(
                        TypeMismatch { expected: t, actual: current.clone() },
                        position,
                    ),
                );
            }
        },
        None => {},
    }
    info.type_id = Some(t);
    Ok(())
}

/// Push a type into a checked expression whose type was not known: a lambda is re-checked
/// with parameter types, a block gives it to the value it yields, and other nodes take it
/// unless they already have another type.
pub fn update_expression(e: &mut Expression<TypeInformation>, t: Type, fuel: u64) -> (r: Result<
    (),
    TypeCheckError,
>)
    ensures
        r is Ok ==> expr_ty(*final(e)) == Some(t@),
        !(*old(e) is Lambda || *old(e) is Parens || *old(e) is Prefix || *old(e) is Block) ==> (
        r is Ok <==> (expr_ty(*old(e)) is None || expr_ty(*old(e)) == Some(t@))),
    decreases fuel, *old(e),
{
    match e {
        Expression::Lambda(l) => update_lambda(l, t, fuel),
        Expression::Parens(inner) => update_expression(&mut **inner, t, fuel),
        Expression::Prefix(Prefix::Negation { expr, .. }) => update_expression(&mut **expr, t, fuel),
        Expression::Prefix(Prefix::Minus { expr, .. }) => update_expression(&mut **expr, t, fuel),
        Expression::Block(b) => update_block(b, t, fuel),
        Expression::Id(x) => set_type(&mut x.info, t, x.position),
        Expression::Num(Num::Integer(_, info, p)) => set_type(info, t, *p),
        Expression::Num(Num::FloatingPoint(_, info, p)) => set_type(info, t, *p),
        Expression::Bool(x) => set_type(&mut x.info, t, x.position),
        Expression::Character(x) => set_type(&mut x.info, t, x.position),
        Expression::AstString(x) => set_type(&mut x.info, t, x.position),
        Expression::Function(x) => set_type(&mut x.info, t, x.position),
        Expression::If(x) => set_type(&mut x.info, t, x.position),
        Expression::Postfix(Postfix::Call { info, position, .. }) => set_type(info, t, *position),
        Expression::Postfix(Postfix::Index { info, position, .. }) => set_type(info, t, *position),
        Expression::Postfix(Postfix::PropertyAccess { info, position, .. }) => set_type(
            info,
            t,
            *position,
        ),
        Expression::Binary(b) => set_type(&mut b.info, t, b.position),
        Expression::Array(Array::Literal { info, position, .. }) => set_type(info, t, *position),
        Expression::Array(Array::Default { info, position, .. }) => set_type(info, t, *position),
        Expression::StructInitialisation(x) => set_type(&mut x.info, t, x.position),
    }
}

/// Push a type into a checked block: the value it yields or returns last gets it, and so
/// does the block.
pub fn update_block(b: &mut Block<TypeInformation>, t: Type, fuel: u64) -> (r: Result<
    (),
    TypeCheckError,
>)
    ensures
        r is Ok ==> ty(final(b).info) == Some(t@),
        old(b).statements@.len() == 0 || !(old(b).statements@.last() is YieldingExpression
            || old(b).statements@.last() is Return) ==> r is Ok,
    decreases fuel, *old(b),
{
    let n = b.statements.len();
    if n > 0 {
        match &mut b.statements[n - 1] {
            Statement::YieldingExpression(x) => {
                update_expression(x, t.clone(), fuel)?;
            },
            Statement::Return(x) => {
                update_expression(x, t.clone(), fuel)?;
            },
            _ => {},
        }
    }
    b.info.type_id = Some(t);
    Ok(())
}

/// Push a function type into a lambda: the type must be a function with as many parameters as
/// the lambda; a lambda of a fully known type keeps it. The body is checked again in the
/// lambda's context with the parameters bound to their types, and must return the given
/// return type where its type is known.
#[verifier::loop_isolation(false)]
pub fn update_lambda(l: &mut Lambda<TypeInformation>, t: Type, fuel: u64) -> (r: Result<
    (),
    TypeCheckError,
>)
    ensures
        r is Ok ==> ty(final(l).info) == Some(t@),
        !(t@ is Function) ==> r is Err,
        r is Ok ==> final(l).position == old(l).position,
        r is Ok && ty(old(l).info) != Some(t@) ==> (t@ matches TypeV::Function(ps, rv)
            && final(l).parameters@.len() == ps.len() && (forall|k: int|
            0 <= k < ps.len() ==> ty(#[trigger] final(l).parameters@[k].info) == Some(ps[k]))
            && (expr_ty(*final(l).expression) is Some ==> expr_ty(*final(l).expression) == Some(
            *rv,
        ))),
        t@ is Function && ty(old(l).info) == Some(t@) ==> r is Ok && *final(l) == *old(l),
        r is Err ==> *final(l) == *old(l),
        !(t@ is Function) ==> (r matches Err(e) && is_mismatch(
            e,
            TypeV::Function(unknowns(old(l).parameters@.len()), Box::new(TypeV::Unknown)),
            t@,
            old(l).position,
        )),
        t@ is Function ==> (ty(old(l).info) matches Some(c) ==> (c != t@ && !refinable(c) ==> (
        r matches Err(e) && is_mismatch(e, c, t@, old(l).position)))),
        t@ matches TypeV::Function(ps, _) ==> (lambda_proceeds(ty(old(l).info), t@) && ps.len()
            != old(l).parameters@.len() ==> (r matches Err(e) && is_mismatch(
            e,
            TypeV::Function(unknowns(old(l).parameters@.len()), Box::new(TypeV::Unknown)),
            t@,
            old(l).position,
        ))),
        t@ matches TypeV::Function(ps, rv) ==> (lambda_proceeds(ty(old(l).info), t@) && ps.len()
            == old(l).parameters@.len() && fuel > 0 && parameters_unbound(*old(l)) ==> (lit_type(
            *old(l).expression,
        ) matches Some(bt) ==> (if bt == *rv {
            r is Ok
        } else {
            r matches Err(e) && is_mismatch(e, bt, *rv, old(l).expression.spec_position())
        }))),
        t@ matches TypeV::Function(ps, rv) ==> forall|k: int|
            lambda_proceeds(ty(old(l).info), t@) && ps.len() == old(l).parameters@.len() && fuel > 0
                && parameters_unbound(*old(l)) && distinct_parameters(*old(l)) && #[trigger] body_names_parameter(
                *old(l),
                k,
            ) ==> (if ps[k] == *rv {
                r is Ok
            } else {
                r matches Err(e) && is_mismatch(e, ps[k], *rv, old(l).expression.spec_position())
            }),
    decreases fuel, *old(l),
{
    let mut unknown_params: Vec<Type> = Vec::new();
    let mut k: usize = 0;
    while k < l.parameters.len()
        invariant
            k <= l.parameters@.len(),
            unknown_params@.len() == k,
            forall|j: int| 0 <= j < k ==> #[trigger] unknown_params@[j] == Type::Unknown,
        decreases l.parameters.len() - k,
    {
        unknown_params.push(Type::Unknown);
        k = k + 1;
    }
    proof {
        lemma_view_types(unknown_params@);
        assert(view_types(unknown_params@) =~= unknowns(l.parameters@.len()));
        assert(Type::Unknown@ == TypeV::Unknown);
    }
    let expected_unknowns = Type::Function { params: unknown_params, return_value: Box::new(Type::Unknown) };
    assert(expected_unknowns@ == TypeV::Function(unknowns(l.parameters@.len()), Box::new(TypeV::Unknown)));
    let mismatch = TypeCheckError::TypeMismatch(
        TypeMismatch {
            expected: expected_unknowns,
            actual: t.clone(),
        },
        l.position,
    );
    let (params, return_value) = match &t {
        Type::Function { params, return_value } => (params, return_value),
        _ => {
            return Err(mismatch);
        },
    };
    proof {
        lemma_view_types(params@);
    }
    match &l.info.type_id {
        Some(current) => {
            if current.type_eq(&t) {
                return Ok(());
            }
            match current {
                Type::Function { params: current_params, return_value: current_return } => {
                    let mut can_refine = match &**current_return {
                        Type::Unknown => true,
                        _ => false,
                    };
                    let mut k: usize = 0;
                    proof {
                        lemma_view_types(current_params@);
                    }
                    while k < current_params.len()
                        invariant
                            k <= current_params@.len(),
                            can_refine == ((**current_return)@ == TypeV::Unknown || exists|j: int|
                                0 <= j < k && view_types(current_params@)[j] == TypeV::Unknown),
                        decreases current_params.len() - k,
                    {
                        let ghost vs = view_types(current_params@);
                        match &current_params[k] {
                            Type::Unknown => {
                                can_refine = true;
                            },
                            _ => {},
                        }
                        proof {
                            assert(vs[k as int] == current_params@[k as int]@);
                            if vs[k as int] == TypeV::Unknown {
                                assert(0 <= k < k + 1 && vs[k as int] == TypeV::Unknown);
                            }
                            assert((exists|j: int| 0 <= j < k + 1 && vs[j] == TypeV::Unknown) == ((
                            exists|j: int| 0 <= j < k && vs[j] == TypeV::Unknown) || vs[k as int]
                                == TypeV::Unknown)) by {
                                if exists|j: int| 0 <= j < k + 1 && vs[j] == TypeV::Unknown {
                                    let j = choose|j: int| 0 <= j < k + 1 && vs[j] == TypeV::Unknown;
                                    if j < k {
                                        assert(0 <= j < k && vs[j] == TypeV::Unknown);
                                    }
                                }
                            }
                        }
                        k = k + 1;
                    }
                    if !can_refine {
                        return Err(
                            TypeCheckError::TypeMismatch(
                                TypeMismatch { expected: current.clone(), actual: t.clone() },
                                l.position,
                            ),
                        );
                    }
                },
                _ => {
                    return Err(
                        TypeCheckError::TypeMismatch(
                            TypeMismatch { expected: current.clone(), actual: t.clone() },
                            l.position,
                        ),
                    );
                },
            }
        },
        None => {},
    }
    if params.len() != l.parameters.len() || fuel == 0 {
        return Err(mismatch);
    }
    let mut ctx = l.info.context.clone();
    ctx.scope.enter_scope();
    let ghost entered = ctx@;
    proof {
        assert forall|n: Seq<char>| #[trigger] lookup_constant(entered.frames, n) == lookup_constant(
            l.info.context@.frames,
            n,
        ) by {
            assert(entered.frames.drop_last() =~= l.info.context@.frames);
        }
    }
    let mut k: usize = 0;
    while k < params.len()
        invariant
            params@.len() == l.parameters@.len(),
            keeps_definitions(entered, ctx@),
            entered.frames.len() > 0,
            forall|n: Seq<char>| #[trigger] lookup_constant(entered.frames, n) == lookup_constant(
                l.info.context@.frames,
                n,
            ),
            k <= params@.len(),
            distinct_parameters(*l) ==> forall|j: int|
                0 <= j < k ==> lookup_variable(ctx@.frames, #[trigger] l.parameters@[j].name.name@)
                    == Some(BindingV { type_id: Some(params@[j]@), mutable: false }),
        decreases params.len() - k,
    {
        proof {
            lemma_keeps_definitions_lookups(entered, ctx@, l.parameters@[k as int].name.name@);
        }
        let ghost before = ctx@;
        let name = &l.parameters[k].name.name;
        let position = l.parameters[k].name.position;
        if ctx.scope.add_variable(name.as_str(), Some(params[k].clone()), false).is_err() {
            return Err(
                TypeCheckError::RedefinedConstant(
                    RedefinedConstant { constant_name: name.clone() },
                    position,
                ),
            );
        }
        proof {
            if distinct_parameters(*l) {
                assert forall|j: int|
                    0 <= j < k + 1 implies lookup_variable(ctx@.frames, #[trigger] l.parameters@[j].name.name@)
                        == Some(BindingV { type_id: Some(params@[j]@), mutable: false }) by {
                    lemma_variable_bound(
                        before,
                        ctx@,
                        l.parameters@[k as int].name.name@,
                        BindingV { type_id: Some(params@[k as int]@), mutable: false },
                        l.parameters@[j].name.name@,
                    );
                }
            }
        }
        k = k + 1;
    }
    proof {
        lemma_view_types(params@);
        if distinct_parameters(*l) && parameters_unbound(*l) && (*l.expression is Id) {
            let x = (*l.expression)->Id_0.name@;
            lemma_keeps_definitions_lookups(entered, ctx@, x);
        }
    }
    let reverted = revert_expression(&*l.expression);
    let expr = check_expression(reverted, &mut ctx, fuel - 1)?;
    match type_of(&expr) {
        Some(expr_type) => {
            if !expr_type.type_eq(&**return_value) {
                let at = expr.position();
                return Err(
                    TypeCheckError::TypeMismatch(
                        TypeMismatch { expected: expr_type, actual: (**return_value).clone() },
                        at,
                    ),
                );
            }
        },
        None => {},
    }
    let mut k: usize = 0;
    proof {
        lemma_view_types(params@);
    }
    while k < params.len()
        invariant
            params@.len() == l.parameters@.len(),
            forall|j: int| 0 <= j < k ==> ty(#[trigger] l.parameters@[j].info) == Some(params@[j]@),
            l.position == old(l).position,
            l.info == old(l).info,
        decreases params.len() - k,
    {
        l.parameters[k].info.type_id = Some(params[k].clone());
        l.parameters[k].name.info.type_id = Some(params[k].clone());
        k = k + 1;
    }
    l.expression = Box::new(expr);
    l.info.type_id = Some(t);
    Ok(())
}



impl Expression<()> {
    /// Check the expression by the rule of its kind.
    pub fn check(self, ctx: &mut Context) -> (r: Result<Expression<TypeInformation>, TypeCheckError>)
        ensures
            r is Ok ==> keeps_definitions(old(ctx)@, final(ctx)@),
            r matches Ok(t) ==> expression_checked(self, t, old(ctx)@),
            self is Num || self is Bool || self is Character || self is AstString ==> r is Ok && final(ctx)@ == old(
                ctx,
            )@,
            self matches Expression::Id(id) ==> (r is Ok <==> resolve(old(ctx)@.frames, id.name@) is Some),
            literal_type(self) matches Some(t) ==> (r matches Ok(c) && expr_ty(c) == Some(t)),
            simple_type(self, old(ctx)@) matches Some(t) ==> (r matches Ok(c) && expr_ty(c) == Some(t)
                && final(ctx)@ == old(ctx)@),
            self matches Expression::Binary(b) && literal_type(b.left) is Some && literal_type(b.right) is Some
                && binary_rule(b.operator, literal_type(b.left), literal_type(b.right)) is Ok ==> r is Ok,
            self matches Expression::Prefix(Prefix::Negation { expr, .. }) && literal_type(*expr) == Some(
                TypeV::Boolean,
            ) ==> r is Ok,
            self matches Expression::Prefix(Prefix::Minus { expr, .. }) && (literal_type(*expr) == Some(
                TypeV::Integer,
            ) || literal_type(*expr) == Some(TypeV::FloatingPoint)) ==> r is Ok,
            self matches Expression::Array(Array::Literal { values, .. }) && values@.len() == 0 ==> r is Ok,
            self matches Expression::Array(Array::Default { initial_value, .. }) && literal_type(
                *initial_value,
            ) is Some ==> r is Ok,
    {
        check_expression(self, ctx, RECHECK_BUDGET)
    }
}

impl Statement<()> {
    /// Check the statement by the rule of its kind.
    pub fn check(self, ctx: &mut Context) -> (r: Result<Statement<TypeInformation>, TypeCheckError>)
        ensures
            r is Ok ==> keeps_definitions(old(ctx)@, final(ctx)@),
            r matches Ok(t) ==> (t is Comment <==> self is Comment) && (t is Expression <==> self is Expression)
                && (t is YieldingExpression <==> self is YieldingExpression),
            r matches Ok(t) ==> statement_checked(self, t, old(ctx)@),
            plain_statement(self) ==> r is Ok && final(ctx)@ == old(ctx)@,
    {
        check_statement(self, ctx, RECHECK_BUDGET)
    }
}

impl Block<()> {
    /// Check the block: its statements in order; it has the type of its last statement.
    pub fn check(self, ctx: &mut Context) -> (r: Result<Block<TypeInformation>, TypeCheckError>)
        ensures
            r is Ok ==> keeps_definitions(old(ctx)@, final(ctx)@),
            r matches Ok(c) ==> c.position == self.position && ty(c.info) == block_rule(c.statements@)
                && c.statements@.len() == self.statements@.len(),
            (forall|i: int| 0 <= i < self.statements@.len() ==> plain_statement(#[trigger] self.statements@[i]))
                ==> r is Ok,
    {
        check_block(self, ctx, RECHECK_BUDGET)
    }
}

impl Function<()> {
    /// Check the function: parameters, return type and body.
    pub fn check(self, ctx: &mut Context) -> (r: Result<Function<TypeInformation>, TypeCheckError>)
        ensures
            r is Ok ==> keeps_definitions(old(ctx)@, final(ctx)@),
            r matches Ok(c) ==> c.position == self.position && c.id.name@ == self.id.name@,
            r matches Ok(c) ==> resolve_type_names(parameter_type_names(self.parameters@), old(ctx)@.frames)
                matches Ok(ps) && resolve_type_name(self.return_type@, old(ctx)@.frames) matches Ok(rt)
                && ty(c.info) == Some(TypeV::Function(ps, Box::new(rt))) && (ty(c.body.info) == Some(rt)
                || (rt == TypeV::Void && ty(c.body.info) is None)),
            r matches Ok(c) ==> function_rule(self, c, old(ctx)@.frames),
            self.parameters@.len() == 0 && resolve_type_name(self.return_type@, old(ctx)@.frames) == Ok::<
                TypeV,
                TypeNameView,
            >(TypeV::Void) && self.body.statements@.len() == 0 ==> r is Ok,
            self.parameters@.len() == 0 ==> match resolve_type_name(self.return_type@, old(ctx)@.frames) {
                Err(_) => r matches Err(TypeCheckError::UndefinedType(u, pos)) && u.type_annotation@
                    == self.return_type@ && pos == self.return_type.spec_position(),
                Ok(rt) => lone_yield(self.body.statements@) matches Some((t, _)) ==> if t == rt {
                    r is Ok
                } else {
                    r matches Err(e) && is_mismatch(e, rt, t, self.body.position)
                },
            },
            r is Ok ==> final(ctx)@ == old(ctx)@,
            signature_checks(self, old(ctx)@.frames) ==> (lone_yield(self.body.statements@) matches Some((t, _))
                ==> (if Some(t) == resolve_type_name(self.return_type@, old(ctx)@.frames).ok() {
                r matches Ok(c) && ty(c.info) == Some(
                    TypeV::Function(
                        resolve_type_names(parameter_type_names(self.parameters@), old(ctx)@.frames)->Ok_0,
                        Box::new(t),
                    ),
                )
            } else {
                r matches Err(e) && is_mismatch(
                    e,
                    resolve_type_name(self.return_type@, old(ctx)@.frames)->Ok_0,
                    t,
                    self.body.position,
                )
            })),
            signature_checks(self, old(ctx)@.frames) && body_fits(self, old(ctx)@.frames) ==> r is Ok,
            r matches Ok(c) ==> ty(c.id.info) == ty(c.info),
    {
        check_function(self, ctx, RECHECK_BUDGET)
    }
}

impl Initialisation<()> {
    /// Check the initialisation and bind the variable.
    pub fn check(self, ctx: &mut Context) -> (r: Result<Initialisation<TypeInformation>, TypeCheckError>)
        ensures
            r is Ok ==> keeps_definitions(old(ctx)@, final(ctx)@),
            r matches Ok(c) ==> c.position == self.position && c.mutable == self.mutable && c.id.name@
                == self.id.name@ && ty(c.info) == Some(TypeV::Void) && ty(c.id.info) is Some,
            r is Ok ==> lookup_constant(old(ctx)@.frames, self.id.name@) is None,
            r matches Ok(c) ==> match self.type_annotation {
                Some(a) => resolve_type_name(a@, old(ctx)@.frames) == Ok::<TypeV, TypeNameView>(
                    ty(c.id.info).unwrap(),
                ) && expr_ty(c.value) == ty(c.id.info),
                None => expr_ty(c.value) == ty(c.id.info),
            },
            r matches Ok(c) ==> (old(ctx)@.frames.len() > 0 ==> lookup_variable(
                final(ctx)@.frames,
                self.id.name@,
            ) == Some(BindingV { type_id: ty(c.id.info), mutable: self.mutable })),
            literal_type(self.value) is Some && lookup_constant(old(ctx)@.frames, self.id.name@) is None && (
            match self.type_annotation {
                Some(a) => resolve_type_name(a@, old(ctx)@.frames) == Ok::<TypeV, TypeNameView>(
                    literal_type(self.value)->Some_0,
                ),
                None => true,
            }) ==> r is Ok,
            simple_type(self.value, old(ctx)@) matches Some(vt) ==> match self.type_annotation {
                Some(a) => match resolve_type_name(a@, old(ctx)@.frames) {
                    Err(_) => r matches Err(TypeCheckError::UndefinedType(u, pos)) && u.type_annotation@
                        == a@ && pos == a.spec_position(),
                    Ok(t) => if t != vt {
                        r matches Err(x) && is_mismatch(x, t, vt, self.value.spec_position())
                    } else if lookup_constant(old(ctx)@.frames, self.id.name@) is Some {
                        r matches Err(TypeCheckError::RedefinedConstant(rc, pos)) && rc.constant_name@
                            == self.id.name@ && pos == self.id.position
                    } else {
                        r matches Ok(c) && ty(c.id.info) == Some(vt)
                    },
                },
                None => if lookup_constant(old(ctx)@.frames, self.id.name@) is Some {
                    r matches Err(TypeCheckError::RedefinedConstant(rc, pos)) && rc.constant_name@
                        == self.id.name@ && pos == self.id.position
                } else {
                    r matches Ok(c) && ty(c.id.info) == Some(vt)
                },
            },
            self.type_annotation is None ==> (self.value matches Expression::Array(Array::Literal { values, .. })
                ==> (values@.len() == 0 ==> (r matches Err(TypeCheckError::MissingInitialisationType(_, pos))
                && pos == self.position))),
            self.type_annotation is None ==> (self.value matches Expression::Lambda(l) ==> (l.parameters@.len() > 0
                && lambda_plain(l, old(ctx)@.frames) ==> (r matches Err(
                TypeCheckError::MissingInitialisationType(_, pos),
            ) && pos == self.position))),
    {
        check_initialisation(self, ctx, RECHECK_BUDGET)
    }
}

impl Id<()> {
    /// Check the identifier: it has the type of what its name resolves to.
    pub fn check(self, ctx: &mut Context) -> (r: Result<Id<TypeInformation>, TypeCheckError>)
        ensures
            r is Ok ==> keeps_definitions(old(ctx)@, final(ctx)@),
            match resolve(old(ctx)@.frames, self.name@) {
                Some(t) => r matches Ok(c) && ty(c.info) == t,
                None => r is Err,
            },
    {
        check_id(self, ctx)
    }
}

impl Expression<TypeInformation> {
    /// Give an expression whose type was not known the type `t`.
    pub fn update_type(&mut self, t: Type) -> (r: Result<(), TypeCheckError>)
        ensures
            r is Ok ==> expr_ty(*final(self)) == Some(t@),
            !(*old(self) is Lambda || *old(self) is Parens || *old(self) is Prefix || *old(self) is Block) ==> (
            r is Ok <==> (expr_ty(*old(self)) is None || expr_ty(*old(self)) == Some(t@))),
    {
        update_expression(self, t, RECHECK_BUDGET)
    }
}


impl BinaryExpression<()> {
    /// Check both operands, then the rule of the operator.
    pub fn check(self, ctx: &mut Context) -> (r: Result<BinaryExpression<TypeInformation>, TypeCheckError>)
        ensures
            r is Ok ==> keeps_definitions(old(ctx)@, final(ctx)@),
            r matches Ok(c) ==> c.operator == self.operator && c.position == self.position && binary_rule(
                c.operator,
                expr_ty(c.left),
                expr_ty(c.right),
            ) == Ok::<Option<TypeV>, (TypeV, TypeV)>(ty(c.info)),
            r matches Ok(c) ==> expression_checked(self.left, c.left, old(ctx)@),
            literal_type(self.left) is Some && literal_type(self.right) is Some && binary_rule(
                self.operator,
                literal_type(self.left),
                literal_type(self.right),
            ) is Ok ==> r is Ok,
            simple_type(self.left, old(ctx)@) is Some && simple_type(self.right, old(ctx)@) is Some
                ==> match binary_rule(
                self.operator,
                simple_type(self.left, old(ctx)@),
                simple_type(self.right, old(ctx)@),
            ) {
                Ok(t) => r matches Ok(c) && ty(c.info) == t,
                Err(pair) => r matches Err(e) && is_unsupported_operation(e, pair, self.position),
            },
    {
        check_binary(self, ctx, RECHECK_BUDGET)
    }
}

impl If<()> {
    /// Check the condition and both branches.
    pub fn check(self, ctx: &mut Context) -> (r: Result<If<TypeInformation>, TypeCheckError>)
        ensures
            r is Ok ==> keeps_definitions(old(ctx)@, final(ctx)@),
            r matches Ok(c) ==> c.position == self.position && required_rule(
                expr_ty(*c.condition),
                TypeV::Boolean,
            ) is None && if_rule(
                c.then_block.statements.len() > 0,
                c.else_block.statements.len() > 0,
                last_statement_type(c.then_block.statements@),
                last_statement_type(c.else_block.statements@),
            ) == Ok::<Option<TypeV>, (TypeV, TypeV)>(ty(c.info)),
            r matches Ok(c) ==> expression_checked(*self.condition, *c.condition, old(ctx)@),
            literal_type(*self.condition) == Some(TypeV::Boolean) && self.then_block.statements@.len() == 0
                && self.else_block.statements@.len() == 0 ==> r is Ok,
            simple_type(*self.condition, old(ctx)@) matches Some(ct) ==> (ct != TypeV::Boolean ==> (
            r matches Err(e) && is_mismatch(e, TypeV::Boolean, ct, self.condition.spec_position()))),
            simple_type(*self.condition, old(ctx)@) == Some(TypeV::Boolean) ==> (lone_value(
                self.then_block.statements@,
                old(ctx)@,
            ) matches Some((a, _)) ==> (lone_value(self.else_block.statements@, old(ctx)@) matches Some((b, pb)) ==> (if a
                == b {
                r matches Ok(c) && ty(c.info) == Some(a)
            } else {
                r matches Err(e) && is_mismatch(e, a, b, pb)
            }))),
    {
        check_if(self, ctx, RECHECK_BUDGET)
    }
}

impl Lambda<()> {
    /// Check the lambda: parameters without types, then the body, in a new scope.
    pub fn check(self, ctx: &mut Context) -> (r: Result<Lambda<TypeInformation>, TypeCheckError>)
        ensures
            r is Ok ==> keeps_definitions(old(ctx)@, final(ctx)@),
            r matches Ok(c) ==> c.position == self.position && c.parameters@.len() == self.parameters@.len()
                && ty(c.info) == (if c.parameters@.len() == 0 && expr_ty(*c.expression) is Some {
                Some(TypeV::Function(Seq::empty(), Box::new(expr_ty(*c.expression).unwrap())))
            } else {
                None
            }),
            r matches Ok(c) ==> lambda_rule(self, c),
            self.parameters@.len() == 0 && literal_type(*self.expression) is Some ==> r is Ok,
    {
        check_lambda(self, ctx, RECHECK_BUDGET)
    }
}

impl Lambda<TypeInformation> {
    /// Give the lambda a function type, checking its body again with typed parameters.
    pub fn update_type(&mut self, t: Type) -> (r: Result<(), TypeCheckError>)
        ensures
            r is Ok ==> ty(final(self).info) == Some(t@),
            !(t@ is Function) ==> r is Err,
            r is Ok ==> final(self).position == old(self).position,
            r is Ok && ty(old(self).info) != Some(t@) ==> (t@ matches TypeV::Function(ps, rv)
                && final(self).parameters@.len() == ps.len() && (forall|k: int|
                0 <= k < ps.len() ==> ty(#[trigger] final(self).parameters@[k].info) == Some(ps[k]))
                && (expr_ty(*final(self).expression) is Some ==> expr_ty(*final(self).expression) == Some(
                *rv,
            ))),
            t@ is Function && ty(old(self).info) == Some(t@) ==> r is Ok && *final(self) == *old(self),
            r is Err ==> *final(self) == *old(self),
            !(t@ is Function) ==> (r matches Err(e) && is_mismatch(
                e,
                TypeV::Function(unknowns(old(self).parameters@.len()), Box::new(TypeV::Unknown)),
                t@,
                old(self).position,
            )),
            t@ is Function ==> (ty(old(self).info) matches Some(c) ==> (c != t@ && !refinable(c) ==> (
            r matches Err(e) && is_mismatch(e, c, t@, old(self).position)))),
            t@ matches TypeV::Function(ps, _) ==> (lambda_proceeds(ty(old(self).info), t@) && ps.len()
                != old(self).parameters@.len() ==> (r matches Err(e) && is_mismatch(
                e,
                TypeV::Function(unknowns(old(self).parameters@.len()), Box::new(TypeV::Unknown)),
                t@,
                old(self).position,
            ))),
            t@ matches TypeV::Function(ps, rv) ==> (lambda_proceeds(ty(old(self).info), t@) && ps.len()
                == old(self).parameters@.len() && parameters_unbound(*old(self)) ==> (lit_type(
                *old(self).expression,
            ) matches Some(bt) ==> (if bt == *rv {
                r is Ok
            } else {
                r matches Err(e) && is_mismatch(e, bt, *rv, old(self).expression.spec_position())
            }))),
            t@ matches TypeV::Function(ps, rv) ==> forall|k: int|
                lambda_proceeds(ty(old(self).info), t@) && ps.len() == old(self).parameters@.len()
                    && parameters_unbound(*old(self)) && distinct_parameters(*old(self)) && #[trigger] body_names_parameter(
                    *old(self),
                    k,
                ) ==> (if ps[k] == *rv {
                    r is Ok
                } else {
                    r matches Err(e) && is_mismatch(e, ps[k], *rv, old(self).expression.spec_position())
                }),
    {
        update_lambda(self, t, RECHECK_BUDGET)
    }
}

impl Postfix<()> {
    /// Check a call, an index or a property access.
    pub fn check(self, ctx: &mut Context) -> (r: Result<Postfix<TypeInformation>, TypeCheckError>)
        ensures
            r is Ok ==> keeps_definitions(old(ctx)@, final(ctx)@),
            r matches Ok(c) ==> (c is Index ==> self is Index) && (c is Call ==> self is Call) && (
            c is PropertyAccess ==> self is PropertyAccess),
            r matches Ok(Postfix::Index { expr, index, info, .. }) ==> index_rule(
                expr_ty(*expr),
                expr_ty(*index),
            ) == Ok::<Option<TypeV>, (TypeV, TypeV, bool)>(ty(info)),
            r matches Ok(Postfix::Call { expr, args, info, .. }) ==> match expr_ty(*expr) {
                None => ty(info) is None,
                Some(TypeV::Function(ps, rv)) => ty(info) == Some(*rv) && args@.len() == ps.len()
                    && forall|i: int|
                    0 <= i < ps.len() ==> expr_ty(#[trigger] args@[i]) == Some(ps[i]) || (ps[i]
                        == TypeV::Unknown && expr_ty(args@[i]) is None),
                Some(_) => false,
            },
            r matches Ok(Postfix::PropertyAccess { expr, property, info, .. }) ==> ty(property.info)
                == ty(info) && match expr_ty(*expr) {
                None => ty(info) is None,
                Some(t) => ty(info) == property_of(old(ctx)@.methods, t, property.name@) && ty(
                    info,
                ) is Some,
            },
            r matches Ok(c) ==> postfix_rule(self, c, old(ctx)@.methods),
            r matches Ok(c) ==> expression_checked(*postfix_operand(self), *postfix_operand(c), old(ctx)@),
            nullary_call(self, old(ctx)@.frames) ==> r is Ok,
            call_types(self, old(ctx)@) matches Some((ft, ats)) ==> (!(ft matches TypeV::Function(
                ps,
                _,
            ) && ps.len() == ats.len()) ==> (r matches Err(e) && is_mismatch(
                e,
                TypeV::Function(ats, Box::new(TypeV::Unknown)),
                ft,
                self->Call_position,
            ))),
            call_types(self, old(ctx)@) matches Some((ft, ats)) ==> (ft matches TypeV::Function(ps, rv)
                ==> (ps == ats ==> (r matches Ok(Postfix::Call { info, .. }) && ty(info) == Some(*rv)))),
            call_types(self, old(ctx)@) matches Some((ft, ats)) ==> (ft matches TypeV::Function(ps, rv)
                ==> forall|j: int|
                ps.len() == ats.len() && 0 <= j < ats.len() && #[trigger] ats[j] != ps[j] && (forall|k: int|
                    0 <= k < j ==> ats[k] == ps[k]) ==> (r matches Err(e) && is_mismatch(
                    e,
                    ps[j],
                    ats[j],
                    self->Call_args@[j].spec_position(),
                ))),
            self matches Postfix::Index { expr, index, .. } ==> (simple_type(*expr, old(ctx)@) is Some
                && simple_type(*index, old(ctx)@) is Some ==> match index_rule(
                simple_type(*expr, old(ctx)@),
                simple_type(*index, old(ctx)@),
            ) {
                Ok(t) => r matches Ok(Postfix::Index { info, .. }) && ty(info) == t,
                Err(x) => r matches Err(e) && is_mismatch(
                    e,
                    x.0,
                    x.1,
                    if x.2 {
                        index.spec_position()
                    } else {
                        expr.spec_position()
                    },
                ),
            }),
            self matches Postfix::PropertyAccess { expr, property, .. } ==> (simple_type(
                *expr,
                old(ctx)@,
            ) matches Some(t) ==> match property_of(old(ctx)@.methods, t, property.name@) {
                Some(pt) => r matches Ok(Postfix::PropertyAccess { info, .. }) && ty(info) == Some(pt),
                None => r matches Err(TypeCheckError::UndefinedVariable(u, pos)) && u.variable_name@
                    == property.name@ && pos == property.position,
            }),
    {
        check_postfix(self, ctx, RECHECK_BUDGET)
    }
}

impl StructInitialisation<()> {
    /// Check a struct initialisation against the struct's declaration.
    pub fn check(self, ctx: &mut Context) -> (r: Result<StructInitialisation<TypeInformation>, TypeCheckError>)
        ensures
            r is Ok ==> keeps_definitions(old(ctx)@, final(ctx)@),
            r matches Ok(c) ==> c.position == self.position && c.id.name@ == self.id.name@,
            !(lookup_type(old(ctx)@.frames, self.id.name@) matches Some(TypeV::Struct(_, _))) ==> (r matches Err(
                e,
            ) && e is UndefinedType),
            r matches Ok(c) ==> ty(c.info) == lookup_type(old(ctx)@.frames, self.id.name@)
                && initialises_fields(c.fields@, declared_fields(ty(c.info))),
            r matches Ok(c) ==> struct_initialisation_rule(self, c, old(ctx)@.frames),
            lookup_type(old(ctx)@.frames, self.id.name@) matches Some(TypeV::Struct(_, d)) ==> (simple_fields(
                self.fields@,
                old(ctx)@,
            ) && distinct_names(d) ==> ((forall|j: int|
                0 <= j < d.len() ==> field_initialised(self.fields@, old(ctx)@, #[trigger] d[j]))
                ==> r is Ok)),
            lookup_type(old(ctx)@.frames, self.id.name@) matches Some(TypeV::Struct(_, d)) ==> (simple_fields(
                self.fields@,
                old(ctx)@,
            ) && distinct_names(d) ==> forall|j: int|
                0 <= j < d.len() && !field_initialised(self.fields@, old(ctx)@, #[trigger] d[j]) && (
                forall|k: int| 0 <= k < j ==> field_initialised(self.fields@, old(ctx)@, d[k])) ==> (if last_field(
                    self.fields@,
                    d[j].0,
                ) < 0 {
                    r matches Err(TypeCheckError::UndefinedVariable(u, pos)) && u.variable_name@
                        == self.id.name@ + "."@ + d[j].0 && pos == self.position
                } else {
                    r matches Err(e) && is_mismatch(
                        e,
                        d[j].1,
                        simple_type(self.fields@[last_field(self.fields@, d[j].0)].value, old(ctx)@)->Some_0,
                        self.fields@[last_field(self.fields@, d[j].0)].position,
                    )
                })),
    {
        check_struct_initialisation(self, ctx, RECHECK_BUDGET)
    }
}

impl Constant<()> {
    /// Check a constant's value against its annotated type.
    pub fn check(self, ctx: &mut Context) -> (r: Result<Constant<TypeInformation>, TypeCheckError>)
        ensures
            r is Ok ==> keeps_definitions(old(ctx)@, final(ctx)@),
            r matches Ok(x) ==> x.position == self.position && x.id.name@ == self.id.name@ && ty(x.info)
                == Some(TypeV::Void),
            r matches Ok(x) ==> ty(x.id.info) is Some && resolve_type_name(
                self.type_annotation@,
                old(ctx)@.frames,
            ) == Ok::<TypeV, TypeNameView>(ty(x.id.info).unwrap()) && expr_ty(x.value) == ty(x.id.info),
            literal_type(self.value) is Some && resolve_type_name(self.type_annotation@, old(ctx)@.frames)
                == Ok::<TypeV, TypeNameView>(literal_type(self.value)->Some_0) ==> r is Ok,
            simple_type(self.value, old(ctx)@) matches Some(vt) ==> match resolve_type_name(
                self.type_annotation@,
                old(ctx)@.frames,
            ) {
                Err(_) => r matches Err(TypeCheckError::InvalidConstantType(ic, pos)) && ic.constant_name@
                    == self.id.name@ && pos == self.type_annotation.spec_position(),
                Ok(t) => if t != vt {
                    r matches Err(x) && is_mismatch(x, t, vt, self.value.spec_position())
                } else {
                    r matches Ok(x) && ty(x.id.info) == Some(vt)
                },
            },
    {
        check_constant(self, ctx, RECHECK_BUDGET)
    }
}

impl Assignment<()> {
    /// Check an assignment.
    pub fn check(self, ctx: &mut Context) -> (r: Result<Assignment<TypeInformation>, TypeCheckError>)
        ensures
            r is Ok ==> keeps_definitions(old(ctx)@, final(ctx)@),
            r matches Ok(x) ==> x.position == self.position && ty(x.info) == Some(TypeV::Void),
            !lvalue_names_variable(self.lvalue) ==> (r matches Err(e) && e is UndefinedVariable),
            lvalue_names_variable(self.lvalue) ==> (lookup_variable(
                old(ctx)@.frames,
                lvalue_variable(self.lvalue).name@,
            ) matches Some(b) ==> (!b.mutable ==> (r matches Err(e) && e is ImmutableReassign))),
            r matches Ok(x) ==> match lvalue_type(x.lvalue) {
                Some(v) => expr_ty(x.rvalue) == Some(v),
                None => true,
            },
            self.lvalue matches LValue::Id(id) ==> (lookup_variable(old(ctx)@.frames, id.name@) matches Some(b)
                ==> (lookup_constant(old(ctx)@.frames, id.name@) is None && b.mutable ==> (simple_type(
                self.rvalue,
                old(ctx)@,
            ) matches Some(vt) ==> match b.type_id {
                Some(v) => if v == vt {
                    r is Ok
                } else {
                    r matches Err(e) && is_mismatch(e, v, vt, self.rvalue.spec_position())
                },
                None => r is Ok,
            }))),
    {
        check_assignment(self, ctx, RECHECK_BUDGET)
    }
}

impl WhileLoop<()> {
    /// Check a `while` loop.
    pub fn check(self, ctx: &mut Context) -> (r: Result<WhileLoop<TypeInformation>, TypeCheckError>)
        ensures
            r is Ok ==> keeps_definitions(old(ctx)@, final(ctx)@),
            r matches Ok(x) ==> x.position == self.position && ty(x.info) == Some(TypeV::Void)
                && required_rule(expr_ty(x.condition), TypeV::Boolean) is None,
            literal_type(self.condition) == Some(TypeV::Boolean) && (forall|i: int|
                0 <= i < self.block.statements@.len() ==> plain_statement(#[trigger] self.block.statements@[i]))
                ==> r is Ok,
    {
        check_while(self, ctx, RECHECK_BUDGET)
    }
}

impl Declaration<()> {
    /// Check a declaration's type name.
    pub fn check(self, ctx: &mut Context) -> (r: Result<Declaration<TypeInformation>, TypeCheckError>)
        ensures
            r matches Ok(x) ==> x.position == self.position && x.name.name@ == self.name.name@ && ty(x.info)
                == Some(TypeV::Void),
            r is Ok <==> resolve_type_name(self.type_annotation@, old(ctx)@.frames) is Ok,
            r matches Ok(x) ==> resolve_type_name(self.type_annotation@, old(ctx)@.frames) == Ok::<
                TypeV,
                TypeNameView,
            >(ty(x.name.info).unwrap()) && ty(x.name.info) is Some,
            r matches Err(e) ==> e is UndefinedType,
            final(ctx)@ == old(ctx)@,
    {
        check_declaration(self, ctx)
    }
}

impl StructDeclaration<()> {
    /// Check the field types of a struct declaration.
    pub fn check(self, ctx: &mut Context) -> (r: Result<StructDeclaration<TypeInformation>, TypeCheckError>)
        ensures
            r matches Ok(x) ==> x.position == self.position && x.id.name@ == self.id.name@ && x.fields@.len()
                == self.fields@.len() && ty(x.info) == Some(TypeV::Void),
            r is Ok <==> forall|j: int|
                0 <= j < self.fields@.len() ==> resolve_type_name(
                    #[trigger] self.fields@[j].type_annotation@,
                    old(ctx)@.frames,
                ) is Ok,
            r matches Ok(x) ==> forall|j: int|
                0 <= j < x.fields@.len() ==> #[trigger] x.fields@[j].name.name@ == self.fields@[j].name.name@
                    && ty(x.fields@[j].info) is Some && resolve_type_name(
                    self.fields@[j].type_annotation@,
                    old(ctx)@.frames,
                ) == Ok::<TypeV, TypeNameView>(ty(x.fields@[j].info).unwrap()),
            r matches Err(e) ==> e is UndefinedType,
            final(ctx)@ == old(ctx)@,
    {
        check_struct_declaration(self, ctx)
    }
}

impl Num<()> {
    /// A number literal has its fixed type.
    pub fn check(self, ctx: &mut Context) -> (res: Result<Num<TypeInformation>, TypeCheckError>)
        ensures
            res is Ok ==> keeps_definitions(old(ctx)@, final(ctx)@),
            res is Ok,
            res matches Ok(r) && match (self, r) {
                (Num::Integer(v, _, p), Num::Integer(w, info, q)) => v == w && p == q && ty(info)
                    == Some(TypeV::Integer),
                (Num::FloatingPoint(v, _, p), Num::FloatingPoint(w, info, q)) => v@ == w@ && p == q
                    && ty(info) == Some(TypeV::FloatingPoint),
                _ => false,
            },
    {
        match self {
            Num::Integer(v, _, p) => Ok(Num::Integer(v, info_of(Some(Type::Integer), ctx.clone()), p)),
            Num::FloatingPoint(v, _, p) => Ok(
                Num::FloatingPoint(v, info_of(Some(Type::FloatingPoint), ctx.clone()), p),
            ),
        }
    }
}


/// Check a function parameter: its annotated type must resolve, and it is bound as an
/// immutable variable of that type, unless a constant has its name.
pub fn check_function_parameter(p: FunctionParameter<()>, ctx: &mut Context) -> (r: Result<
    FunctionParameter<TypeInformation>,
    TypeCheckError,
>)
    ensures
        r is Ok ==> keeps_definitions(old(ctx)@, final(ctx)@),
        r matches Ok(c) ==> c.position == p.position && c.name.name@ == p.name.name@ && ty(c.info)
            is Some && ty(c.name.info) == ty(c.info),
        r is Ok <==> resolve_type_name(p.type_annotation@, old(ctx)@.frames) is Ok && lookup_constant(
            old(ctx)@.frames,
            p.name.name@,
        ) is None,
        r matches Ok(c) ==> resolve_type_name(p.type_annotation@, old(ctx)@.frames) == Ok::<
            TypeV,
            TypeNameView,
        >(ty(c.info).unwrap()),
        r matches Ok(c) ==> (old(ctx)@.frames.len() > 0 ==> lookup_variable(
            final(ctx)@.frames,
            p.name.name@,
        ) == Some(BindingV { type_id: ty(c.info), mutable: false })),
        resolve_type_name(p.type_annotation@, old(ctx)@.frames) matches Err(bad) ==> r matches Err(
            e,
        ) && is_undefined_type_error(e, bad),
{
    let FunctionParameter { name, type_annotation, position: param_position, .. } = p;
    let Id { name, position: id_position, .. } = name;
    let param_context = ctx.clone();
    let type_id = match Type::from_type_name(&type_annotation, ctx) {
        Ok(t) => t,
        Err(e) => {
            return Err(e);
        },
    };
    if ctx.scope.add_variable(name.as_str(), Some(type_id.clone()), false).is_err() {
        return Err(
            TypeCheckError::RedefinedConstant(RedefinedConstant { constant_name: name }, id_position),
        );
    }
    let info = info_of(Some(type_id), param_context);
    let id_info = info.clone();
    Ok(
        FunctionParameter {
            name: Id { name, info: id_info, position: id_position },
            type_annotation,
            info,
            position: param_position,
        },
    )
}

/// Check a lambda parameter: it is bound as an immutable variable whose type is not known yet,
/// unless a constant has its name.
pub fn check_lambda_parameter(p: LambdaParameter<()>, ctx: &mut Context) -> (r: Result<
    LambdaParameter<TypeInformation>,
    TypeCheckError,
>)
    ensures
        r is Ok ==> keeps_definitions(old(ctx)@, final(ctx)@),
        r matches Ok(c) ==> c.position == p.position && c.name.name@ == p.name.name@ && ty(c.info)
            is None,
        r is Ok <==> lookup_constant(old(ctx)@.frames, p.name.name@) is None,
        r is Ok ==> (old(ctx)@.frames.len() > 0 ==> lookup_variable(
            final(ctx)@.frames,
            p.name.name@,
        ) == Some(BindingV { type_id: None, mutable: false })),
        r is Ok && old(ctx)@.frames.len() > 0 ==> final(ctx)@.frames == old(ctx)@.frames.update(
            old(ctx)@.frames.len() - 1,
            frame_with_variable(
                old(ctx)@.frames.last(),
                p.name.name@,
                BindingV { type_id: None, mutable: false },
            ),
        ),
{
    let LambdaParameter { name, position: param_position, .. } = p;
    let Id { name, position: id_position, .. } = name;
    let id = Id { name, info: info_of(None, ctx.clone()), position: id_position };
    if ctx.scope.add_variable(id.name.as_str(), None, false).is_err() {
        return Err(
            TypeCheckError::RedefinedConstant(
                RedefinedConstant { constant_name: id.name },
                param_position,
            ),
        );
    }
    Ok(LambdaParameter { name: id, info: info_of(None, ctx.clone()), position: param_position })
}

impl FunctionParameter<()> {
    /// Check the parameter and bind it.
    pub fn check(self, ctx: &mut Context) -> (r: Result<FunctionParameter<TypeInformation>, TypeCheckError>)
        ensures
            r is Ok ==> keeps_definitions(old(ctx)@, final(ctx)@),
            r matches Ok(c) ==> c.position == self.position && c.name.name@ == self.name.name@ && ty(c.info)
                is Some && ty(c.name.info) == ty(c.info),
            r is Ok <==> resolve_type_name(self.type_annotation@, old(ctx)@.frames) is Ok && lookup_constant(
                old(ctx)@.frames,
                self.name.name@,
            ) is None,
            r matches Ok(c) ==> resolve_type_name(self.type_annotation@, old(ctx)@.frames) == Ok::<
                TypeV,
                TypeNameView,
            >(ty(c.info).unwrap()),
            r matches Ok(c) ==> (old(ctx)@.frames.len() > 0 ==> lookup_variable(
                final(ctx)@.frames,
                self.name.name@,
            ) == Some(BindingV { type_id: ty(c.info), mutable: false })),
            resolve_type_name(self.type_annotation@, old(ctx)@.frames) matches Err(bad) ==> r matches Err(
                e,
            ) && is_undefined_type_error(e, bad),
    {
        check_function_parameter(self, ctx)
    }
}

impl LambdaParameter<()> {
    /// Check the parameter and bind it without a type.
    pub fn check(self, ctx: &mut Context) -> (r: Result<LambdaParameter<TypeInformation>, TypeCheckError>)
        ensures
            r is Ok ==> keeps_definitions(old(ctx)@, final(ctx)@),
            r matches Ok(c) ==> c.position == self.position && c.name.name@ == self.name.name@ && ty(c.info)
                is None,
            r is Ok <==> lookup_constant(old(ctx)@.frames, self.name.name@) is None,
            r is Ok ==> (old(ctx)@.frames.len() > 0 ==> lookup_variable(
                final(ctx)@.frames,
                self.name.name@,
            ) == Some(BindingV { type_id: None, mutable: false })),
    {
        check_lambda_parameter(self, ctx)
    }
}

impl Array<()> {
    /// Check an array: a literal's elements must agree with the first; the array has the
    /// array type of its elements.
    pub fn check(self, ctx: &mut Context) -> (r: Result<Array<TypeInformation>, TypeCheckError>)
        ensures
            r is Ok ==> keeps_definitions(old(ctx)@, final(ctx)@),
            r matches Ok(a) ==> expression_checked(
                Expression::Array(self),
                Expression::Array(a),
                old(ctx)@,
            ),
            self matches Array::Literal { values, .. } && values@.len() == 0 ==> r is Ok,
            self matches Array::Default { initial_value, .. } && literal_type(*initial_value) is Some
                ==> r is Ok,
            self matches Array::Literal { values, .. } ==> (all_simple(values@, old(ctx)@)
                ==> match first_element_mismatch(simple_opt_types(values@, old(ctx)@), 0) {
                Some((i, actual)) => r matches Err(x) && is_mismatch(
                    x,
                    simple_type(values@[0], old(ctx)@)->Some_0,
                    actual,
                    values@[i].spec_position(),
                ),
                None => r matches Ok(c) && ty(c.spec_info()) == array_literal_rule(
                    simple_opt_types(values@, old(ctx)@),
                ),
            }),
    {
        match check_expression(Expression::Array(self), ctx, RECHECK_BUDGET)? {
            Expression::Array(a) => Ok(a),
            _ => vstd::pervasive::unreached(),
        }
    }
}

impl Prefix<()> {
    /// Check a prefix operation: `!` needs a truth value and `-` a number, where the operand's
    /// type is known.
    pub fn check(self, ctx: &mut Context) -> (r: Result<Prefix<TypeInformation>, TypeCheckError>)
        ensures
            r is Ok ==> keeps_definitions(old(ctx)@, final(ctx)@),
            r matches Ok(p) ==> expression_checked(
                Expression::Prefix(self),
                Expression::Prefix(p),
                old(ctx)@,
            ),
            self matches Prefix::Negation { expr, .. } && literal_type(*expr) == Some(TypeV::Boolean)
                ==> r is Ok,
            self matches Prefix::Minus { expr, .. } && (literal_type(*expr) == Some(TypeV::Integer)
                || literal_type(*expr) == Some(TypeV::FloatingPoint)) ==> r is Ok,
    {
        match check_expression(Expression::Prefix(self), ctx, RECHECK_BUDGET)? {
            Expression::Prefix(p) => Ok(p),
            _ => vstd::pervasive::unreached(),
        }
    }
}

impl Character<()> {
    /// A character literal has the character type.
    pub fn check(self, ctx: &mut Context) -> (r: Result<Character<TypeInformation>, TypeCheckError>)
        ensures
            r is Ok ==> keeps_definitions(old(ctx)@, final(ctx)@),
            r matches Ok(c) && c.character == self.character && ty(c.info) == Some(TypeV::Character),
    {
        Ok(
            Character {
                character: self.character,
                position: self.position,
                info: info_of(Some(Type::Character), ctx.clone()),
            },
        )
    }
}

impl AstString<()> {
    /// A string literal has the string type.
    pub fn check(self, ctx: &mut Context) -> (r: Result<AstString<TypeInformation>, TypeCheckError>)
        ensures
            r is Ok ==> keeps_definitions(old(ctx)@, final(ctx)@),
            r matches Ok(c) && c.value@ == self.value@ && ty(c.info) == Some(TypeV::String),
    {
        let AstString { value, position, .. } = self;
        Ok(AstString { value, info: info_of(Some(Type::String), ctx.clone()), position })
    }
}

impl Bool<()> {
    /// A truth value literal has the boolean type.
    pub fn check(self, ctx: &mut Context) -> (r: Result<Bool<TypeInformation>, TypeCheckError>)
        ensures
            r is Ok ==> keeps_definitions(old(ctx)@, final(ctx)@),
            r matches Ok(b) && b.value == self.value && ty(b.info) == Some(TypeV::Boolean),
    {
        Ok(
            Bool {
                value: self.value,
                position: self.position,
                info: info_of(Some(Type::Boolean), ctx.clone()),
            },
        )
    }
}

} // verus!
