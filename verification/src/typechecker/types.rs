//! The types of the Y language, their mathematical view, and how type names resolve to them.
use vstd::prelude::*;
use vstd::string::StringExecFns;

use crate::lexer::Span;
use crate::parser::ast::{TypeName, TypeNameView, view_names};
use crate::typechecker::context::Context;
use crate::typechecker::error::{TypeCheckError, UndefinedType};
use crate::typechecker::scope::{FrameV, lookup_type};

verus! {

/// A type of the Y language.
#[derive(Debug, PartialEq, Eq, Hash)]
pub enum Type {
    Integer,
    FloatingPoint,
    Boolean,
    Character,
    String,
    Void,
    Unknown,
    Reference(Box<Type>),
    Tuple(Vec<Type>),
    Array(Box<Type>),
    Struct(String, Vec<(String, Type)>),
    Function { params: Vec<Type>, return_value: Box<Type> },
}

/// A type as a mathematical value.
pub enum TypeV {
    Integer,
    FloatingPoint,
    Boolean,
    Character,
    String,
    Void,
    Unknown,
    Reference(Box<TypeV>),
    Tuple(Seq<TypeV>),
    Array(Box<TypeV>),
    Struct(Seq<char>, Seq<(Seq<char>, TypeV)>),
    Function(Seq<TypeV>, Box<TypeV>),
}

impl View for Type {
    type V = TypeV;

    open spec fn view(&self) -> TypeV
        decreases self,
    {
        match self {
            Type::Integer => TypeV::Integer,
            Type::FloatingPoint => TypeV::FloatingPoint,
            Type::Boolean => TypeV::Boolean,
            Type::Character => TypeV::Character,
            Type::String => TypeV::String,
            Type::Void => TypeV::Void,
            Type::Unknown => TypeV::Unknown,
            Type::Reference(inner) => TypeV::Reference(Box::new((**inner)@)),
            Type::Tuple(elements) => TypeV::Tuple(view_types(elements@)),
            Type::Array(inner) => TypeV::Array(Box::new((**inner)@)),
            Type::Struct(name, fields) => TypeV::Struct(name@, view_fields(fields@)),
            Type::Function { params, return_value } => TypeV::Function(
                view_types(params@),
                Box::new((**return_value)@),
            ),
        }
    }
}

/// The views of a list of types.
pub open spec fn view_types(ts: Seq<Type>) -> Seq<TypeV>
    decreases ts,
{
    if ts.len() == 0 {
        Seq::empty()
    } else {
        view_types(ts.drop_last()).push(ts.last()@)
    }
}

/// The views of a list of struct fields.
pub open spec fn view_fields(fs: Seq<(String, Type)>) -> Seq<(Seq<char>, TypeV)>
    decreases fs,
{
    if fs.len() == 0 {
        Seq::empty()
    } else {
        view_fields(fs.drop_last()).push((fs.last().0@, fs.last().1@))
    }
}

/// The view of an optional type.
pub open spec fn opt_view(t: Option<Type>) -> Option<TypeV> {
    match t {
        Some(t) => Some(t@),
        None => None,
    }
}

pub proof fn lemma_view_types(ts: Seq<Type>)
    ensures
        view_types(ts).len() == ts.len(),
        forall|i: int| 0 <= i < ts.len() ==> #[trigger] view_types(ts)[i] == ts[i]@,
    decreases ts.len(),
{
    if ts.len() > 0 {
        lemma_view_types(ts.drop_last());
        assert(view_types(ts) == view_types(ts.drop_last()).push(ts.last()@));
        assert forall|i: int| 0 <= i < ts.len() implies #[trigger] view_types(ts)[i] == ts[i]@ by {
            if i < ts.len() - 1 {
                assert(ts.drop_last()[i] == ts[i]);
            }
        }
    }
}

pub proof fn lemma_view_fields(fs: Seq<(String, Type)>)
    ensures
        view_fields(fs).len() == fs.len(),
        forall|i: int|
            0 <= i < fs.len() ==> #[trigger] view_fields(fs)[i] == (fs[i].0@, fs[i].1@),
    decreases fs.len(),
{
    if fs.len() > 0 {
        lemma_view_fields(fs.drop_last());
        assert(view_fields(fs) == view_fields(fs.drop_last()).push((fs.last().0@, fs.last().1@)));
        assert forall|i: int| 0 <= i < fs.len() implies #[trigger] view_fields(fs)[i] == (
            fs[i].0@,
            fs[i].1@,
        ) by {
            if i < fs.len() - 1 {
                assert(fs.drop_last()[i] == fs[i]);
            }
        }
    }
}

proof fn lemma_view_types_equal(a: Seq<Type>, b: Seq<Type>)
    requires
        a.len() == b.len(),
        forall|i: int| 0 <= i < a.len() ==> a[i]@ == b[i]@,
    ensures
        view_types(a) == view_types(b),
{
    lemma_view_types(a);
    lemma_view_types(b);
    assert(view_types(a) =~= view_types(b));
}

proof fn lemma_view_fields_equal(a: Seq<(String, Type)>, b: Seq<(String, Type)>)
    requires
        a.len() == b.len(),
        forall|i: int| 0 <= i < a.len() ==> a[i].0@ == b[i].0@ && a[i].1@ == b[i].1@,
    ensures
        view_fields(a) == view_fields(b),
{
    lemma_view_fields(a);
    lemma_view_fields(b);
    assert(view_fields(a) =~= view_fields(b));
}

/// Copy every type of a list.
fn clone_types(ts: &Vec<Type>) -> (r: Vec<Type>)
    ensures
        view_types(r@) == view_types(ts@),
    decreases ts,
{
    let mut r: Vec<Type> = Vec::new();
    let mut k: usize = 0;
    while k < ts.len()
        invariant
            k <= ts@.len(),
            r@.len() == k,
            forall|i: int| 0 <= i < k ==> r@[i]@ == ts@[i]@,
        decreases ts.len() - k,
    {
        assert(decreases_to!(ts => ts@[k as int]));
        r.push(ts[k].clone());
        k = k + 1;
    }
    proof {
        lemma_view_types_equal(r@, ts@);
    }
    r
}

/// Copy every field of a struct type.
pub fn clone_fields(fs: &Vec<(String, Type)>) -> (r: Vec<(String, Type)>)
    ensures
        view_fields(r@) == view_fields(fs@),
        r@.len() == fs@.len(),
        forall|i: int| 0 <= i < fs@.len() ==> r@[i].0@ == fs@[i].0@ && r@[i].1@ == fs@[i].1@,
    decreases fs,
{
    let mut r: Vec<(String, Type)> = Vec::new();
    let mut k: usize = 0;
    while k < fs.len()
        invariant
            k <= fs@.len(),
            r@.len() == k,
            forall|i: int| 0 <= i < k ==> r@[i].0@ == fs@[i].0@ && r@[i].1@ == fs@[i].1@,
        decreases fs.len() - k,
    {
        assert(decreases_to!(fs => fs@[k as int]));
        assert(decreases_to!(fs@[k as int] => fs@[k as int].1));
        let field = &fs[k];
        r.push((field.0.clone(), field.1.clone()));
        k = k + 1;
    }
    proof {
        lemma_view_fields_equal(r@, fs@);
    }
    r
}

impl Clone for Type {
    fn clone(&self) -> (r: Type)
        ensures
            r@ == self@,
        decreases self,
    {
        match self {
            Type::Integer => Type::Integer,
            Type::FloatingPoint => Type::FloatingPoint,
            Type::Boolean => Type::Boolean,
            Type::Character => Type::Character,
            Type::String => Type::String,
            Type::Void => Type::Void,
            Type::Unknown => Type::Unknown,
            Type::Reference(inner) => Type::Reference(Box::new((**inner).clone())),
            Type::Tuple(elements) => Type::Tuple(clone_types(elements)),
            Type::Array(inner) => Type::Array(Box::new((**inner).clone())),
            Type::Struct(name, fields) => Type::Struct(name.clone(), clone_fields(fields)),
            Type::Function { params, return_value } => Type::Function {
                params: clone_types(params),
                return_value: Box::new((**return_value).clone()),
            },
        }
    }
}

/// Whether two lists of types are equal.
fn types_eq(a: &Vec<Type>, b: &Vec<Type>) -> (r: bool)
    ensures
        r == (view_types(a@) == view_types(b@)),
    decreases a,
{
    proof {
        lemma_view_types(a@);
        lemma_view_types(b@);
    }
    if a.len() != b.len() {
        return false;
    }
    let mut k: usize = 0;
    while k < a.len()
        invariant
            a@.len() == b@.len(),
            k <= a@.len(),
            forall|i: int| 0 <= i < k ==> a@[i]@ == b@[i]@,
        decreases a.len() - k,
    {
        assert(decreases_to!(a => a@[k as int]));
        if !a[k].type_eq(&b[k]) {
            proof {
                lemma_view_types(a@);
                lemma_view_types(b@);
            }
            assert(view_types(a@)[k as int] != view_types(b@)[k as int]);
            return false;
        }
        k = k + 1;
    }
    proof {
        lemma_view_types_equal(a@, b@);
    }
    true
}

/// Whether two lists of struct fields are equal.
fn fields_eq(a: &Vec<(String, Type)>, b: &Vec<(String, Type)>) -> (r: bool)
    ensures
        r == (view_fields(a@) == view_fields(b@)),
    decreases a,
{
    proof {
        lemma_view_fields(a@);
        lemma_view_fields(b@);
    }
    if a.len() != b.len() {
        return false;
    }
    let mut k: usize = 0;
    while k < a.len()
        invariant
            a@.len() == b@.len(),
            k <= a@.len(),
            forall|i: int| 0 <= i < k ==> a@[i].0@ == b@[i].0@ && a@[i].1@ == b@[i].1@,
        decreases a.len() - k,
    {
        assert(decreases_to!(a => a@[k as int]));
        assert(decreases_to!(a@[k as int] => a@[k as int].1));
        let x = &a[k];
        let y = &b[k];
        if !(x.0 == y.0) || !x.1.type_eq(&y.1) {
            proof {
                lemma_view_fields(a@);
                lemma_view_fields(b@);
            }
            assert(view_fields(a@)[k as int] != view_fields(b@)[k as int]);
            return false;
        }
        k = k + 1;
    }
    proof {
        lemma_view_fields_equal(a@, b@);
    }
    true
}

impl Type {
    /// Whether two types are the same.
    pub fn type_eq(&self, other: &Type) -> (r: bool)
        ensures
            r == (self@ == other@),
        decreases self,
    {
        match (self, other) {
            (Type::Integer, Type::Integer) => true,
            (Type::FloatingPoint, Type::FloatingPoint) => true,
            (Type::Boolean, Type::Boolean) => true,
            (Type::Character, Type::Character) => true,
            (Type::String, Type::String) => true,
            (Type::Void, Type::Void) => true,
            (Type::Unknown, Type::Unknown) => true,
            (Type::Reference(a), Type::Reference(b)) => (**a).type_eq(&**b),
            (Type::Tuple(a), Type::Tuple(b)) => types_eq(a, b),
            (Type::Array(a), Type::Array(b)) => (**a).type_eq(&**b),
            (Type::Struct(n1, f1), Type::Struct(n2, f2)) => *n1 == *n2 && fields_eq(f1, f2),
            (
                Type::Function { params: p1, return_value: r1 },
                Type::Function { params: p2, return_value: r2 },
            ) => types_eq(p1, p2) && (**r1).type_eq(&**r2),
            _ => false,
        }
    }
}

/// Whether two types have the same outermost form.
pub open spec fn same_kind(a: TypeV, b: TypeV) -> bool {
    match (a, b) {
        (TypeV::Integer, TypeV::Integer) => true,
        (TypeV::FloatingPoint, TypeV::FloatingPoint) => true,
        (TypeV::Boolean, TypeV::Boolean) => true,
        (TypeV::Character, TypeV::Character) => true,
        (TypeV::String, TypeV::String) => true,
        (TypeV::Void, TypeV::Void) => true,
        (TypeV::Unknown, TypeV::Unknown) => true,
        (TypeV::Reference(_), TypeV::Reference(_)) => true,
        (TypeV::Tuple(_), TypeV::Tuple(_)) => true,
        (TypeV::Array(_), TypeV::Array(_)) => true,
        (TypeV::Struct(_, _), TypeV::Struct(_, _)) => true,
        (TypeV::Function(_, _), TypeV::Function(_, _)) => true,
        _ => false,
    }
}

/// Compatibility of two types: a reference is compatible with what it refers to, composite
/// types must be equal, and other types must be of the same form.
pub open spec fn does_eq_spec(a: TypeV, b: TypeV) -> bool {
    match (a, b) {
        (TypeV::Reference(l), r) => *l == r,
        (l, TypeV::Reference(r)) => l == *r,
        (TypeV::Tuple(_), TypeV::Tuple(_)) => a == b,
        (TypeV::Array(_), TypeV::Array(_)) => a == b,
        (TypeV::Struct(_, _), TypeV::Struct(_, _)) => a == b,
        (TypeV::Function(_, _), TypeV::Function(_, _)) => a == b,
        _ => same_kind(a, b),
    }
}

impl Type {
    /// Whether two types are compatible: a reference is compatible with the type it refers to;
    /// tuples, arrays, structs and functions must be equal; other types must be the same.
    pub fn does_eq(&self, other: &Type) -> (r: bool)
        ensures
            r == does_eq_spec(self@, other@),
    {
        match (self, other) {
            (Type::Reference(l), r) => (**l).type_eq(r),
            (l, Type::Reference(r)) => l.type_eq(&**r),
            (Type::Tuple(_), Type::Tuple(_)) => self.type_eq(other),
            (Type::Array(_), Type::Array(_)) => self.type_eq(other),
            (Type::Struct(_, _), Type::Struct(_, _)) => self.type_eq(other),
            (Type::Function { .. }, Type::Function { .. }) => self.type_eq(other),
            (Type::Integer, Type::Integer) => true,
            (Type::FloatingPoint, Type::FloatingPoint) => true,
            (Type::Boolean, Type::Boolean) => true,
            (Type::Character, Type::Character) => true,
            (Type::String, Type::String) => true,
            (Type::Void, Type::Void) => true,
            (Type::Unknown, Type::Unknown) => true,
            _ => false,
        }
    }
}

/// Every type that is not a reference is compatible with itself.
pub proof fn lemma_does_eq_reflexive(t: TypeV)
    requires
        !(t is Reference),
    ensures
        does_eq_spec(t, t),
{
}

/// Compatibility is symmetric unless both sides are references.
pub proof fn lemma_does_eq_symmetric(a: TypeV, b: TypeV)
    requires
        !(a is Reference && b is Reference),
    ensures
        does_eq_spec(a, b) == does_eq_spec(b, a),
{
}

/// A type that is not itself a reference is compatible with a reference to it, in either
/// order.
pub proof fn lemma_does_eq_through_reference(t: TypeV)
    requires
        !(t is Reference),
    ensures
        does_eq_spec(TypeV::Reference(Box::new(t)), t),
        does_eq_spec(t, TypeV::Reference(Box::new(t))),
{
}

/// Equal types that are not references are compatible.
pub proof fn lemma_equal_types_are_compatible(a: TypeV, b: TypeV)
    requires
        a == b,
        !(a is Reference),
    ensures
        does_eq_spec(a, b),
{
}

/// The types that are built into the language, by name.
pub open spec fn builtin_type(name: Seq<char>) -> Option<TypeV> {
    if name == "i64"@ {
        Some(TypeV::Integer)
    } else if name == "f64"@ {
        Some(TypeV::FloatingPoint)
    } else if name == "void"@ {
        Some(TypeV::Void)
    } else if name == "bool"@ {
        Some(TypeV::Boolean)
    } else if name == "char"@ {
        Some(TypeV::Character)
    } else if name == "str"@ {
        Some(TypeV::String)
    } else {
        None
    }
}

/// Each built-in type name stands for its own type, whatever types the scope defines: `i64`
/// for integers, `f64` for floating point numbers, `void` for no value, `bool` for truth
/// values, `char` for characters and `str` for strings.
pub proof fn law_builtin_type_names(p: Span, frames: Seq<FrameV>)
    ensures
        resolve_type_name(TypeNameView::Literal("i64"@, p), frames) == Ok::<TypeV, TypeNameView>(
            TypeV::Integer,
        ),
        resolve_type_name(TypeNameView::Literal("f64"@, p), frames) == Ok::<TypeV, TypeNameView>(
            TypeV::FloatingPoint,
        ),
        resolve_type_name(TypeNameView::Literal("void"@, p), frames) == Ok::<TypeV, TypeNameView>(
            TypeV::Void,
        ),
        resolve_type_name(TypeNameView::Literal("bool"@, p), frames) == Ok::<TypeV, TypeNameView>(
            TypeV::Boolean,
        ),
        resolve_type_name(TypeNameView::Literal("char"@, p), frames) == Ok::<TypeV, TypeNameView>(
            TypeV::Character,
        ),
        resolve_type_name(TypeNameView::Literal("str"@, p), frames) == Ok::<TypeV, TypeNameView>(
            TypeV::String,
        ),
{
    reveal_strlit("i64");
    reveal_strlit("f64");
    reveal_strlit("void");
    reveal_strlit("bool");
    reveal_strlit("char");
    reveal_strlit("str");
    assert("f64"@[0] != "i64"@[0]);
    assert("void"@.len() != "i64"@.len() && "void"@.len() != "f64"@.len());
    assert("bool"@.len() != "i64"@.len() && "bool"@.len() != "f64"@.len() && "bool"@[0] != "void"@[0]);
    assert("char"@.len() != "i64"@.len() && "char"@.len() != "f64"@.len() && "char"@[0] != "void"@[0]
        && "char"@[0] != "bool"@[0]);
    assert("str"@[0] != "i64"@[0] && "str"@[0] != "f64"@[0] && "str"@.len() != "void"@.len()
        && "str"@.len() != "bool"@.len() && "str"@.len() != "char"@.len());
}

/// The type a type name stands for, given the frames in scope; or the first literal, from
/// the left, that names no type.
pub open spec fn resolve_type_name(t: TypeNameView, frames: Seq<FrameV>) -> Result<
    TypeV,
    TypeNameView,
>
    decreases t,
{
    match t {
        TypeNameView::Literal(name, _) => match builtin_type(name) {
            Some(b) => Ok(b),
            None => match lookup_type(frames, name) {
                Some(d) => Ok(d),
                None => Err(t),
            },
        },
        TypeNameView::Fn(params, return_type, _) => match resolve_type_names(params, frames) {
            Err(e) => Err(e),
            Ok(ps) => match resolve_type_name(*return_type, frames) {
                Err(e) => Err(e),
                Ok(r) => Ok(TypeV::Function(ps, Box::new(r))),
            },
        },
        TypeNameView::Tuple(elements, _) => match resolve_type_names(elements, frames) {
            Err(e) => Err(e),
            Ok(es) => Ok(TypeV::Tuple(es)),
        },
        TypeNameView::Array(inner, _) => match resolve_type_name(*inner, frames) {
            Err(e) => Err(e),
            Ok(i) => Ok(TypeV::Array(Box::new(i))),
        },
        TypeNameView::Reference(inner, _) => match resolve_type_name(*inner, frames) {
            Err(e) => Err(e),
            Ok(i) => Ok(TypeV::Reference(Box::new(i))),
        },
    }
}

/// The types a list of type names stands for; or the first failing literal, from the left.
pub open spec fn resolve_type_names(ts: Seq<TypeNameView>, frames: Seq<FrameV>) -> Result<
    Seq<TypeV>,
    TypeNameView,
>
    decreases ts,
{
    if ts.len() == 0 {
        Ok(Seq::empty())
    } else {
        match resolve_type_names(ts.drop_last(), frames) {
            Err(e) => Err(e),
            Ok(vs) => match resolve_type_name(ts.last(), frames) {
                Err(e) => Err(e),
                Ok(v) => Ok(vs.push(v)),
            },
        }
    }
}

/// Type names resolve alike in frames that define the same types.
pub proof fn lemma_resolve_type_name_same_types(t: TypeNameView, a: Seq<FrameV>, b: Seq<FrameV>)
    requires
        forall|n: Seq<char>| #[trigger] lookup_type(a, n) == lookup_type(b, n),
    ensures
        resolve_type_name(t, a) == resolve_type_name(t, b),
    decreases t, 1nat,
{
    match t {
        TypeNameView::Literal(name, _) => {
            assert(lookup_type(a, name) == lookup_type(b, name));
        },
        TypeNameView::Fn(params, return_type, _) => {
            lemma_resolve_type_names_same_types(params, a, b);
            lemma_resolve_type_name_same_types(*return_type, a, b);
        },
        TypeNameView::Tuple(elements, _) => {
            lemma_resolve_type_names_same_types(elements, a, b);
        },
        TypeNameView::Array(inner, _) => {
            lemma_resolve_type_name_same_types(*inner, a, b);
        },
        TypeNameView::Reference(inner, _) => {
            lemma_resolve_type_name_same_types(*inner, a, b);
        },
    }
}

/// Lists of type names resolve alike in frames that define the same types.
pub proof fn lemma_resolve_type_names_same_types(ts: Seq<TypeNameView>, a: Seq<FrameV>, b: Seq<FrameV>)
    requires
        forall|n: Seq<char>| #[trigger] lookup_type(a, n) == lookup_type(b, n),
    ensures
        resolve_type_names(ts, a) == resolve_type_names(ts, b),
    decreases ts, 0nat,
{
    if ts.len() > 0 {
        lemma_resolve_type_names_same_types(ts.drop_last(), a, b);
        lemma_resolve_type_name_same_types(ts.last(), a, b);
    }
}

/// Where a type name was written.
pub open spec fn type_name_view_span(t: TypeNameView) -> Span {
    match t {
        TypeNameView::Literal(_, s) => s,
        TypeNameView::Fn(_, _, s) => s,
        TypeNameView::Tuple(_, s) => s,
        TypeNameView::Array(_, s) => s,
        TypeNameView::Reference(_, s) => s,
    }
}

/// The error for a type name that names no type.
pub open spec fn is_undefined_type_error(e: TypeCheckError, name: TypeNameView) -> bool {
    e matches TypeCheckError::UndefinedType(u, span) && u.type_annotation@ == name && span
        == type_name_view_span(name)
}

fn builtin(name: &String) -> (r: Option<Type>)
    ensures
        opt_view(r) == builtin_type(name@),
{
    if *name == String::from_str("i64") {
        Some(Type::Integer)
    } else if *name == String::from_str("f64") {
        Some(Type::FloatingPoint)
    } else if *name == String::from_str("void") {
        Some(Type::Void)
    } else if *name == String::from_str("bool") {
        Some(Type::Boolean)
    } else if *name == String::from_str("char") {
        Some(Type::Character)
    } else if *name == String::from_str("str") {
        Some(Type::String)
    } else {
        None
    }
}

proof fn lemma_view_names_push(ts: Seq<TypeName>, k: int)
    requires
        0 <= k < ts.len(),
    ensures
        view_names(ts.take(k + 1)) == view_names(ts.take(k)).push(ts[k]@),
{
    assert(ts.take(k + 1).drop_last() =~= ts.take(k));
}

/// Resolve each of a list of type names, from the left.
fn resolve_names(ts: &Vec<TypeName>, ctx: &Context) -> (r: Result<Vec<Type>, TypeCheckError>)
    ensures
        match resolve_type_names(view_names(ts@), ctx@.frames) {
            Ok(vs) => r matches Ok(v) && view_types(v@) == vs,
            Err(bad) => r matches Err(e) && is_undefined_type_error(e, bad),
        },
    decreases ts,
{
    let mut out: Vec<Type> = Vec::new();
    let mut k: usize = 0;
    assert(view_names(ts@.take(0)) =~= Seq::<TypeNameView>::empty());
    while k < ts.len()
        invariant
            k <= ts@.len(),
            resolve_type_names(view_names(ts@.take(k as int)), ctx@.frames) == Ok::<
                Seq<TypeV>,
                TypeNameView,
            >(view_types(out@)),
        decreases ts.len() - k,
    {
        assert(decreases_to!(ts => ts@[k as int]));
        proof {
            lemma_view_names_push(ts@, k as int);
        }
        let ghost names = view_names(ts@.take(k + 1));
        assert(names.drop_last() == view_names(ts@.take(k as int)));
        assert(names.last() == ts@[k as int]@);
        let t = Type::from_type_name(&ts[k], ctx);
        match t {
            Ok(t) => {
                let ghost before = out@;
                out.push(t);
                assert(out@.drop_last() =~= before);
            },
            Err(e) => {
                proof {
                    lemma_view_names_len(ts@);
                    lemma_view_names_take(ts@, k as int + 1);
                    assert(view_names(ts@).take(k + 1) == names);
                    lemma_resolve_names_prefix_error(view_names(ts@), k as int + 1, ctx@.frames);
                }
                return Err(e);
            },
        }
        k = k + 1;
    }
    assert(ts@.take(ts@.len() as int) =~= ts@);
    Ok(out)
}

proof fn lemma_view_names_take(ts: Seq<TypeName>, k: int)
    requires
        0 <= k <= ts.len(),
    ensures
        view_names(ts).take(k) == view_names(ts.take(k)),
    decreases ts.len() - k,
{
    lemma_view_names_len(ts);
    if k < ts.len() {
        lemma_view_names_take(ts, k + 1);
        lemma_view_names_push(ts, k);
        assert(view_names(ts).take(k + 1).drop_last() =~= view_names(ts).take(k));
    } else {
        assert(ts.take(k) =~= ts);
        lemma_view_names_len(ts);
        assert(view_names(ts).take(k) =~= view_names(ts));
    }
}

proof fn lemma_view_names_len(ts: Seq<TypeName>)
    ensures
        view_names(ts).len() == ts.len(),
    decreases ts.len(),
{
    if ts.len() > 0 {
        lemma_view_names_len(ts.drop_last());
        assert(view_names(ts) == view_names(ts.drop_last()).push(ts.last()@));
    }
}

/// An error in a prefix of a list of type names is the error of the whole list.
pub proof fn lemma_resolve_names_prefix_error(ts: Seq<TypeNameView>, k: int, frames: Seq<FrameV>)
    requires
        0 <= k <= ts.len(),
        resolve_type_names(ts.take(k), frames) is Err,
    ensures
        resolve_type_names(ts, frames) == resolve_type_names(ts.take(k), frames),
    decreases ts.len() - k,
{
    if k < ts.len() {
        assert(ts.take(k + 1).drop_last() =~= ts.take(k));
        lemma_resolve_names_prefix_error(ts, k + 1, frames);
    } else {
        assert(ts.take(k) =~= ts);
    }
}

impl Type {
    /// The type a type name stands for in a context: a built-in type, or the innermost type
    /// the scope defines under a literal name, composed through functions, tuples, arrays and
    /// references. A literal that names no type is an `UndefinedType` error at that literal.
    pub fn from_type_name(name: &TypeName, ctx: &Context) -> (r: Result<Type, TypeCheckError>)
        ensures
            match resolve_type_name(name@, ctx@.frames) {
                Ok(t) => r matches Ok(v) && v@ == t,
                Err(bad) => r matches Err(e) && is_undefined_type_error(e, bad),
            },
        decreases name,
    {
        match name {
            TypeName::Literal(lit, span) => match builtin(lit) {
                Some(t) => Ok(t),
                None => match ctx.scope.get_type(lit.as_str()) {
                    Some(t) => Ok(t),
                    None => Err(
                        TypeCheckError::UndefinedType(
                            UndefinedType { type_annotation: name.clone() },
                            *span,
                        ),
                    ),
                },
            },
            TypeName::Fn { params, return_type, .. } => {
                let params = resolve_names(params, ctx)?;
                let return_value = Type::from_type_name(&**return_type, ctx)?;
                Ok(Type::Function { params, return_value: Box::new(return_value) })
            },
            TypeName::Tuple(elements, _) => {
                let elements = resolve_names(elements, ctx)?;
                Ok(Type::Tuple(elements))
            },
            TypeName::Array(inner, _) => {
                let inner = Type::from_type_name(&**inner, ctx)?;
                Ok(Type::Array(Box::new(inner)))
            },
            TypeName::Reference(inner, _) => {
                let inner = Type::from_type_name(&**inner, ctx)?;
                Ok(Type::Reference(Box::new(inner)))
            },
        }
    }
}

/// A type name that could not be turned into a type.
#[derive(Clone, Debug, PartialEq, Eq)]
pub struct TypeFromTypeNameError {
    pub source: TypeName,
}

impl From<TypeFromTypeNameError> for TypeCheckError {
    /// An undefined type, reported at the empty span.
    fn from(value: TypeFromTypeNameError) -> (e: TypeCheckError) {
        TypeCheckError::UndefinedType(
            UndefinedType { type_annotation: value.source },
            Span { start: 0, end: 0 },
        )
    }
}

impl vstd::std_specs::convert::FromSpecImpl<TypeFromTypeNameError> for TypeCheckError {
    open spec fn obeys_from_spec() -> bool {
        true
    }

    open spec fn from_spec(v: TypeFromTypeNameError) -> TypeCheckError {
        TypeCheckError::UndefinedType(
            UndefinedType { type_annotation: v.source },
            Span { start: 0, end: 0 },
        )
    }
}

impl<'a> TryFrom<(TypeName, &'a Context)> for Type {
    type Error = TypeCheckError;

    /// The type a type name stands for in a context.
    fn try_from(value: (TypeName, &'a Context)) -> (r: Result<Type, TypeCheckError>)
        ensures
            match resolve_type_name(value.0@, value.1@.frames) {
                Ok(t) => r matches Ok(v) && v@ == t,
                Err(bad) => r matches Err(e) && is_undefined_type_error(e, bad),
            },
    {
        Type::from_type_name(&value.0, value.1)
    }
}

/// The result of `try_from` is stated by its own `ensures`, over views; the error's type name
/// has no spec constructor to compare a whole value with.
impl<'a> vstd::std_specs::convert::TryFromSpecImpl<(TypeName, &'a Context)> for Type {
    open spec fn obeys_try_from_spec() -> bool {
        false
    }

    open spec fn try_from_spec(v: (TypeName, &'a Context)) -> Result<Type, TypeCheckError> {
        arbitrary()
    }
}

} // verus!
