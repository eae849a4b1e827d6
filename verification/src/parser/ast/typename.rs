//! Type names as they are written in Y source.
use vstd::prelude::*;

use crate::lexer::Span;

verus! {

/// A type as written in the source.
#[derive(Debug, PartialEq, Eq)]
pub enum TypeName {
    Literal(String, Span),
    Fn { params: Vec<TypeName>, return_type: Box<TypeName>, position: Span },
    Tuple(Vec<TypeName>, Span),
    Array(Box<TypeName>, Span),
    Reference(Box<TypeName>, Span),
}

/// What a type name says, as a mathematical value.
pub enum TypeNameView {
    Literal(Seq<char>, Span),
    Fn(Seq<TypeNameView>, Box<TypeNameView>, Span),
    Tuple(Seq<TypeNameView>, Span),
    Array(Box<TypeNameView>, Span),
    Reference(Box<TypeNameView>, Span),
}

impl View for TypeName {
    type V = TypeNameView;

    open spec fn view(&self) -> TypeNameView
        decreases self,
    {
        match self {
            TypeName::Literal(name, position) => TypeNameView::Literal(name@, *position),
            TypeName::Fn { params, return_type, position } => TypeNameView::Fn(
                view_names(params@),
                Box::new((**return_type)@),
                *position,
            ),
            TypeName::Tuple(elements, position) => TypeNameView::Tuple(
                view_names(elements@),
                *position,
            ),
            TypeName::Array(inner, position) => TypeNameView::Array(Box::new((**inner)@), *position),
            TypeName::Reference(inner, position) => TypeNameView::Reference(
                Box::new((**inner)@),
                *position,
            ),
        }
    }
}

/// The views of a list of type names.
pub open spec fn view_names(names: Seq<TypeName>) -> Seq<TypeNameView>
    decreases names,
{
    if names.len() == 0 {
        Seq::empty()
    } else {
        view_names(names.drop_last()).push(names.last()@)
    }
}

proof fn lemma_view_names_equal(a: Seq<TypeName>, b: Seq<TypeName>)
    requires
        a.len() == b.len(),
        forall|i: int| 0 <= i < a.len() ==> a[i]@ == b[i]@,
    ensures
        view_names(a) == view_names(b),
    decreases a.len(),
{
    if a.len() > 0 {
        lemma_view_names_equal(a.drop_last(), b.drop_last());
    }
}

/// Copy every element of a list of type names.
pub fn clone_type_names(names: &Vec<TypeName>) -> (r: Vec<TypeName>)
    ensures
        r@.len() == names@.len(),
        forall|i: int| 0 <= i < names@.len() ==> r@[i]@ == names@[i]@,
        view_names(r@) == view_names(names@),
    decreases names,
{
    let mut r: Vec<TypeName> = Vec::new();
    let mut k: usize = 0;
    while k < names.len()
        invariant
            k <= names@.len(),
            r@.len() == k,
            forall|i: int| 0 <= i < k ==> r@[i]@ == names@[i]@,
        decreases names.len() - k,
    {
        assert(decreases_to!(names => names@[k as int]));
        r.push(names[k].clone());
        k = k + 1;
    }
    proof {
        lemma_view_names_equal(r@, names@);
    }
    r
}

impl Clone for TypeName {
    fn clone(&self) -> (r: TypeName)
        ensures
            r@ == self@,
        decreases self,
    {
        let r = match self {
            TypeName::Literal(name, position) => TypeName::Literal(name.clone(), *position),
            TypeName::Fn { params, return_type, position } => {
                let params2 = clone_type_names(params);
                let r = TypeName::Fn {
                    params: params2,
                    return_type: Box::new((**return_type).clone()),
                    position: *position,
                };
                r
            },
            TypeName::Tuple(elements, position) => TypeName::Tuple(clone_type_names(elements), *position),
            TypeName::Array(inner, position) => TypeName::Array(Box::new((**inner).clone()), *position),
            TypeName::Reference(inner, position) => TypeName::Reference(
                Box::new((**inner).clone()),
                *position,
            ),
        };
        proof {
            match self {
                TypeName::Fn { params, .. } => {
                    match &r {
                        TypeName::Fn { params: p2, .. } => {
                            lemma_view_names_equal(p2@, params@);
                        },
                        _ => {},
                    }
                },
                TypeName::Tuple(elements, _) => {
                    match &r {
                        TypeName::Tuple(e2, _) => {
                            lemma_view_names_equal(e2@, elements@);
                        },
                        _ => {},
                    }
                },
                _ => {},
            }
        }
        r
    }
}

impl TypeName {
    pub open spec fn spec_position(&self) -> Span {
        match self {
            TypeName::Literal(_, position) => *position,
            TypeName::Fn { position, .. } => *position,
            TypeName::Tuple(_, position) => *position,
            TypeName::Array(_, position) => *position,
            TypeName::Reference(_, position) => *position,
        }
    }

    /// Where this type name was written.
    #[verifier::when_used_as_spec(spec_position)]
    pub fn position(&self) -> (p: Span)
        ensures
            p == self.spec_position(),
    {
        match self {
            TypeName::Literal(_, position) => *position,
            TypeName::Fn { position, .. } => *position,
            TypeName::Tuple(_, position) => *position,
            TypeName::Array(_, position) => *position,
            TypeName::Reference(_, position) => *position,
        }
    }
}

} // verus!
