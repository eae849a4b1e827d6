//! The typing rules of single nodes, given the types of their parts.
use vstd::prelude::*;

use crate::lexer::Span;
use crate::parser::ast::BinaryOperator;
use crate::typechecker::error::{
    TypeCheckError, TypeMismatch, UnsupportedBinaryOperation,
};
use crate::typechecker::types::{Type, TypeV, does_eq_spec, opt_view, view_types, lemma_view_types};

verus! {

/// Whether an operator computes a number (rather than a truth value).
pub open spec fn is_arithmetic(op: BinaryOperator) -> bool {
    match op {
        BinaryOperator::Add | BinaryOperator::Substract | BinaryOperator::Multiply
        | BinaryOperator::Divide => true,
        _ => false,
    }
}

/// The types binary operations work on.
pub open spec fn is_operand_type(t: TypeV) -> bool {
    t == TypeV::Integer || t == TypeV::FloatingPoint || t == TypeV::Boolean
}

/// The type of a binary operation, given the types of its operands, or the pair of operand
/// types it does not support.
pub open spec fn binary_rule(op: BinaryOperator, left: Option<TypeV>, right: Option<TypeV>) -> Result<
    Option<TypeV>,
    (TypeV, TypeV),
> {
    let compound: Result<Option<TypeV>, (TypeV, TypeV)> = match (left, right) {
        (Some(l), Some(r)) => if does_eq_spec(l, r) {
            Ok(Some(l))
        } else {
            Err((l, r))
        },
        _ => Ok(None),
    };
    match compound {
        Err(pair) => Err(pair),
        Ok(Some(t)) if !is_operand_type(t) => Err((t, t)),
        Ok(c) => Ok(
            if is_arithmetic(op) {
                c
            } else {
                Some(TypeV::Boolean)
            },
        ),
    }
}

/// A comparison of two operands of one type that binary operations work on (an integer, a
/// floating point number or a truth value) is a truth value; an arithmetic operation on them
/// has their type. Operands of other types, or of two different types, are refused.
pub proof fn law_binary_operation_types(op: BinaryOperator, t: TypeV, u: TypeV)
    ensures
        (t == TypeV::Integer || t == TypeV::FloatingPoint || t == TypeV::Boolean) ==> {
            &&& (op == BinaryOperator::Equals || op == BinaryOperator::GreaterThan || op
                == BinaryOperator::LessThan || op == BinaryOperator::GreaterOrEqual || op
                == BinaryOperator::LessOrEqual) ==> binary_rule(op, Some(t), Some(t)) == Ok::<
                Option<TypeV>,
                (TypeV, TypeV),
            >(Some(TypeV::Boolean))
            &&& (op == BinaryOperator::Add || op == BinaryOperator::Substract || op
                == BinaryOperator::Multiply || op == BinaryOperator::Divide) ==> binary_rule(
                op,
                Some(t),
                Some(t),
            ) == Ok::<Option<TypeV>, (TypeV, TypeV)>(Some(t))
        },
        (t == TypeV::Character || t == TypeV::String || t == TypeV::Void) ==> binary_rule(
            op,
            Some(t),
            Some(t),
        ) is Err,
        (t == TypeV::Integer || t == TypeV::FloatingPoint || t == TypeV::Boolean) && (u
            == TypeV::Integer || u == TypeV::FloatingPoint || u == TypeV::Boolean) && t != u
            ==> binary_rule(op, Some(t), Some(u)) is Err,
{
}

/// The error for operand types a binary operation does not support.
pub open spec fn is_unsupported_operation(
    e: TypeCheckError,
    pair: (TypeV, TypeV),
    position: Span,
) -> bool {
    e matches TypeCheckError::UnsupportedBinaryOperation(u, p) && u.operands.0@ == pair.0
        && u.operands.1@ == pair.1 && p == position
}

/// The error for a value of type `actual` where `expected` was wanted.
pub open spec fn is_mismatch(e: TypeCheckError, expected: TypeV, actual: TypeV, position: Span) -> bool {
    e matches TypeCheckError::TypeMismatch(m, p) && m.expected@ == expected && m.actual@ == actual
        && p == position
}

fn clone_option(t: &Option<Type>) -> (r: Option<Type>)
    ensures
        opt_view(r) == opt_view(*t),
{
    match t {
        Some(t) => Some(t.clone()),
        None => None,
    }
}

fn is_operand(t: &Type) -> (b: bool)
    ensures
        b == is_operand_type(t@),
{
    match t {
        Type::Integer | Type::FloatingPoint | Type::Boolean => true,
        _ => false,
    }
}

/// The type of a binary operation written at `position`, given the types of its operands.
pub fn binary_type(
    op: BinaryOperator,
    left: &Option<Type>,
    right: &Option<Type>,
    position: Span,
) -> (r: Result<Option<Type>, TypeCheckError>)
    ensures
        match binary_rule(op, opt_view(*left), opt_view(*right)) {
            Ok(t) => r matches Ok(v) && opt_view(v) == t,
            Err(pair) => r matches Err(e) && is_unsupported_operation(e, pair, position),
        },
{
    let compound = match (left, right) {
        (Some(l), Some(r)) => {
            if !l.does_eq(r) {
                return Err(
                    TypeCheckError::UnsupportedBinaryOperation(
                        UnsupportedBinaryOperation { operands: (l.clone(), r.clone()) },
                        position,
                    ),
                );
            }
            Some(l.clone())
        },
        _ => None,
    };
    if let Some(t) = &compound {
        if !is_operand(t) {
            return Err(
                TypeCheckError::UnsupportedBinaryOperation(
                    UnsupportedBinaryOperation { operands: (t.clone(), t.clone()) },
                    position,
                ),
            );
        }
    }
    match op {
        BinaryOperator::Add | BinaryOperator::Substract | BinaryOperator::Multiply
        | BinaryOperator::Divide => Ok(compound),
        _ => Ok(Some(Type::Boolean)),
    }
}

/// A known type other than `expected`, where a truth value or another fixed type is needed.
pub open spec fn required_rule(t: Option<TypeV>, expected: TypeV) -> Option<TypeV> {
    match t {
        Some(a) => if a == expected {
            None
        } else {
            Some(a)
        },
        None => None,
    }
}

/// Check that a value written at `position` has type `expected` where its type is known.
pub fn require_type(t: &Option<Type>, expected: Type, position: Span) -> (r: Result<(), TypeCheckError>)
    ensures
        match required_rule(opt_view(*t), expected@) {
            None => r is Ok,
            Some(actual) => r matches Err(e) && is_mismatch(e, expected@, actual, position),
        },
{
    match t {
        Some(actual) => {
            if !actual.type_eq(&expected) {
                return Err(
                    TypeCheckError::TypeMismatch(
                        TypeMismatch { expected, actual: actual.clone() },
                        position,
                    ),
                );
            }
            Ok(())
        },
        None => Ok(()),
    }
}

/// The operand of `-` must be a number where its type is known.
pub fn require_number(t: &Option<Type>, position: Span) -> (r: Result<(), TypeCheckError>)
    ensures
        match opt_view(*t) {
            Some(a) => if a == TypeV::Integer || a == TypeV::FloatingPoint {
                r is Ok
            } else {
                r matches Err(e) && is_mismatch(e, TypeV::Integer, a, position)
            },
            None => r is Ok,
        },
{
    match t {
        Some(Type::Integer) | Some(Type::FloatingPoint) | None => Ok(()),
        Some(actual) => Err(
            TypeCheckError::TypeMismatch(
                TypeMismatch { expected: Type::Integer, actual: actual.clone() },
                position,
            ),
        ),
    }
}

/// The type of indexing a value of type `collection` with a value of type `index`, or the
/// mismatch (expected, actual, and whether it is about the index) that makes it wrong.
pub open spec fn index_rule(collection: Option<TypeV>, index: Option<TypeV>) -> Result<
    Option<TypeV>,
    (TypeV, TypeV, bool),
> {
    match (collection, index) {
        (Some(TypeV::Array(inner)), Some(TypeV::Integer)) => Ok(Some(*inner)),
        (Some(c), Some(TypeV::Integer)) => Err(
            (TypeV::Array(Box::new(TypeV::Unknown)), c, false),
        ),
        (Some(_), Some(i)) => Err((TypeV::Integer, i, true)),
        _ => Ok(None),
    }
}

/// The type of an index expression, given the types of the indexed value (written at
/// `collection_position`) and of the index (written at `index_position`).
pub fn index_type(
    collection: &Option<Type>,
    index: &Option<Type>,
    collection_position: Span,
    index_position: Span,
) -> (r: Result<Option<Type>, TypeCheckError>)
    ensures
        match index_rule(opt_view(*collection), opt_view(*index)) {
            Ok(t) => r matches Ok(v) && opt_view(v) == t,
            Err(x) => r matches Err(e) && is_mismatch(
                e,
                x.0,
                x.1,
                if x.2 {
                    index_position
                } else {
                    collection_position
                },
            ),
        },
{
    match (collection, index) {
        (Some(Type::Array(inner)), Some(Type::Integer)) => Ok(Some((**inner).clone())),
        (Some(c), Some(Type::Integer)) => {
            let expected = Type::Array(Box::new(Type::Unknown));
            assert(Type::Unknown@ == TypeV::Unknown);
            assert(expected@ == TypeV::Array(Box::new(TypeV::Unknown)));
            Err(
                TypeCheckError::TypeMismatch(
                    TypeMismatch { expected, actual: c.clone() },
                    collection_position,
                ),
            )
        },
        (Some(_), Some(i)) => Err(
            TypeCheckError::TypeMismatch(
                TypeMismatch { expected: Type::Integer, actual: i.clone() },
                index_position,
            ),
        ),
        _ => Ok(None),
    }
}

/// The first mismatch among the known element types of an array literal, compared with the
/// type of the first element: its index and type.
pub open spec fn first_element_mismatch(ts: Seq<Option<TypeV>>, from: int) -> Option<(int, TypeV)>
    decreases ts.len() - from,
{
    if from >= ts.len() || ts.len() == 0 {
        None
    } else {
        match (ts[0], ts[from]) {
            (Some(first), Some(t)) if t != first => Some((from, t)),
            _ => first_element_mismatch(ts, from + 1),
        }
    }
}

/// A mismatch among the element types lies in the list, at or after where the search starts.
pub proof fn lemma_first_element_mismatch(ts: Seq<Option<TypeV>>, from: int)
    requires
        0 <= from,
    ensures
        first_element_mismatch(ts, from) matches Some((i, t)) ==> from <= i < ts.len() && ts[i]
            == Some(t),
    decreases ts.len() - from,
{
    if from < ts.len() && ts.len() != 0 {
        lemma_first_element_mismatch(ts, from + 1);
    }
}

/// Element types that all equal the first one hold no mismatch.
pub proof fn lemma_no_element_mismatch(ts: Seq<Option<TypeV>>, from: int)
    requires
        0 <= from,
        forall|i: int| 0 <= i < ts.len() ==> #[trigger] ts[i] == ts[0],
    ensures
        first_element_mismatch(ts, from) is None,
    decreases ts.len() - from,
{
    if from < ts.len() && ts.len() != 0 {
        assert(ts[from] == ts[0]);
        lemma_no_element_mismatch(ts, from + 1);
    }
}

/// The type of an array literal with elements of the given types.
pub open spec fn array_literal_rule(ts: Seq<Option<TypeV>>) -> Option<TypeV> {
    if ts.len() == 0 {
        None
    } else {
        match ts[0] {
            Some(t) => Some(TypeV::Array(Box::new(t))),
            None => None,
        }
    }
}

/// The type of an array literal whose elements have the given types and positions; an element
/// whose known type differs from the known type of the first element is a mismatch.
pub fn array_literal_type(ts: &Vec<Option<Type>>, positions: &Vec<Span>) -> (r: Result<
    Option<Type>,
    TypeCheckError,
>)
    requires
        ts@.len() == positions@.len(),
    ensures
        match first_element_mismatch(ts@.map_values(|t: Option<Type>| opt_view(t)), 0) {
            Some((i, actual)) => r matches Err(e) && is_mismatch(
                e,
                opt_view(ts@[0]).unwrap(),
                actual,
                positions@[i],
            ),
            None => r matches Ok(v) && opt_view(v) == array_literal_rule(
                ts@.map_values(|t: Option<Type>| opt_view(t)),
            ),
        },
{
    let ghost vs = ts@.map_values(|t: Option<Type>| opt_view(t));
    if ts.len() == 0 {
        return Ok(None);
    }
    let first = clone_option(&ts[0]);
    assert(vs[0] == opt_view(ts@[0]));
    let mut k: usize = 0;
    while k < ts.len()
        invariant
            ts@.len() == positions@.len(),
            0 < ts@.len(),
            k <= ts@.len(),
            vs == ts@.map_values(|t: Option<Type>| opt_view(t)),
            opt_view(first) == vs[0],
            first_element_mismatch(vs, 0) == first_element_mismatch(vs, k as int),
        decreases ts.len() - k,
    {
        assert(vs[k as int] == opt_view(ts@[k as int]));
        match (&first, &ts[k]) {
            (Some(f), Some(t)) => {
                if !f.type_eq(t) {
                    return Err(
                        TypeCheckError::TypeMismatch(
                            TypeMismatch { expected: f.clone(), actual: t.clone() },
                            positions[k],
                        ),
                    );
                }
            },
            _ => {},
        }
        k = k + 1;
    }
    match first {
        Some(t) => Ok(Some(Type::Array(Box::new(t)))),
        None => Ok(None),
    }
}

/// The type of an `if` with the given branch types; when both branches have statements,
/// their known types must agree, and the `else` branch is what is reported.
pub open spec fn if_rule(
    then_has_statements: bool,
    else_has_statements: bool,
    then_type: Option<TypeV>,
    else_type: Option<TypeV>,
) -> Result<Option<TypeV>, (TypeV, TypeV)> {
    if then_has_statements && else_has_statements {
        match (then_type, else_type) {
            (Some(a), Some(b)) => if a == b {
                Ok(Some(a))
            } else {
                Err((a, b))
            },
            _ => Ok(None),
        }
    } else {
        Ok(Some(TypeV::Void))
    }
}

/// The type of an `if` expression, given whether each branch has statements, their types,
/// and where the last statement of the `else` branch was written.
pub fn if_type(
    then_has_statements: bool,
    else_has_statements: bool,
    then_type: &Option<Type>,
    else_type: &Option<Type>,
    else_position: Span,
) -> (r: Result<Option<Type>, TypeCheckError>)
    ensures
        match if_rule(
            then_has_statements,
            else_has_statements,
            opt_view(*then_type),
            opt_view(*else_type),
        ) {
            Ok(t) => r matches Ok(v) && opt_view(v) == t,
            Err(x) => r matches Err(e) && is_mismatch(e, x.0, x.1, else_position),
        },
{
    if then_has_statements && else_has_statements {
        match (then_type, else_type) {
            (Some(a), Some(b)) => {
                if !a.type_eq(b) {
                    return Err(
                        TypeCheckError::TypeMismatch(
                            TypeMismatch { expected: a.clone(), actual: b.clone() },
                            else_position,
                        ),
                    );
                }
                Ok(Some(a.clone()))
            },
            _ => Ok(None),
        }
    } else {
        Ok(Some(Type::Void))
    }
}

/// A value of a known type passes a requirement exactly when it has the required type; a
/// value whose type is not known yet always passes.
pub proof fn law_required_type(t: TypeV, expected: TypeV)
    ensures
        required_rule(Some(t), expected) is None <==> t == expected,
        required_rule(Some(t), expected) is Some ==> required_rule(Some(t), expected) == Some(t),
        required_rule(None, expected) is None,
{
}

/// Indexing an array with an integer gives an element of the array; an index of a known type
/// other than an integer is refused with the integer expected, and so is indexing a value of a
/// known type that is not an array.
pub proof fn law_index_types(element: TypeV, index: TypeV, collection: TypeV)
    ensures
        index_rule(Some(TypeV::Array(Box::new(element))), Some(TypeV::Integer)) == Ok::<
            Option<TypeV>,
            (TypeV, TypeV, bool),
        >(Some(element)),
        index != TypeV::Integer ==> index_rule(Some(collection), Some(index)) == Err::<
            Option<TypeV>,
            (TypeV, TypeV, bool),
        >((TypeV::Integer, index, true)),
        !(collection is Array) ==> index_rule(Some(collection), Some(TypeV::Integer)) is Err,
{
}

/// An array literal has the array type of its first element, where that is known; an empty
/// literal has no known type.
pub proof fn law_array_literal_type(ts: Seq<Option<TypeV>>, t: TypeV)
    ensures
        ts.len() > 0 && ts[0] == Some(t) ==> array_literal_rule(ts) == Some(
            TypeV::Array(Box::new(t)),
        ),
        ts.len() == 0 ==> array_literal_rule(ts) is None,
{
}

/// An `if` whose branches both have statements has the type of its branches where they agree,
/// and is refused where their known types differ, with the `then` type expected; an `if` with
/// an empty branch is `void`.
pub proof fn law_if_types(a: TypeV, b: TypeV, then_full: bool, else_full: bool)
    ensures
        if_rule(true, true, Some(a), Some(a)) == Ok::<Option<TypeV>, (TypeV, TypeV)>(Some(a)),
        a != b ==> if_rule(true, true, Some(a), Some(b)) == Err::<Option<TypeV>, (TypeV, TypeV)>((a, b)),
        !(then_full && else_full) ==> if_rule(then_full, else_full, Some(a), Some(b)) == Ok::<
            Option<TypeV>,
            (TypeV, TypeV),
        >(Some(TypeV::Void)),
{
}

} // verus!
