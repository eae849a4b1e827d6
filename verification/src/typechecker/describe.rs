//! How types and type names are written in messages.
use vstd::prelude::*;
use vstd::string::StringExecFns;

use crate::parser::ast::{TypeName, TypeNameView, view_names};
use crate::typechecker::types::{Type, TypeV, view_types, lemma_view_types};

verus! {

/// How a type is shown in a message.
pub open spec fn type_text(t: TypeV) -> Seq<char>
    decreases t,
{
    match t {
        TypeV::Integer => "Integer"@,
        TypeV::FloatingPoint => "FloatingPoint"@,
        TypeV::Boolean => "Boolean"@,
        TypeV::Character => "Character"@,
        TypeV::String => "String"@,
        TypeV::Void => "Void"@,
        TypeV::Unknown => "Unknown"@,
        TypeV::Reference(inner) => "Reference("@ + type_text(*inner) + ")"@,
        TypeV::Tuple(elements) => "Tuple(["@ + types_text(elements) + "])"@,
        TypeV::Array(inner) => "Array("@ + type_text(*inner) + ")"@,
        TypeV::Struct(name, _) => "struct "@ + name,
        TypeV::Function(params, return_value) => "("@ + types_text(params) + ") -> "@ + type_text(
            *return_value,
        ),
    }
}

/// Types shown one after the other, separated by `, `.
pub open spec fn types_text(ts: Seq<TypeV>) -> Seq<char>
    decreases ts,
{
    if ts.len() == 0 {
        Seq::empty()
    } else if ts.len() == 1 {
        type_text(ts[0])
    } else {
        types_text(ts.drop_last()) + ", "@ + type_text(ts.last())
    }
}

/// How a type name is shown in a message.
pub open spec fn type_name_text(t: TypeNameView) -> Seq<char>
    decreases t,
{
    match t {
        TypeNameView::Literal(name, _) => name,
        TypeNameView::Fn(params, return_type, _) => "("@ + type_names_text(params) + ") -> "@
            + type_name_text(*return_type),
        TypeNameView::Tuple(elements, _) => "("@ + type_names_text(elements) + ")"@,
        TypeNameView::Array(inner, _) => "["@ + type_name_text(*inner) + "]"@,
        TypeNameView::Reference(inner, _) => "&"@ + type_name_text(*inner),
    }
}

/// Type names shown one after the other, separated by `, `.
pub open spec fn type_names_text(ts: Seq<TypeNameView>) -> Seq<char>
    decreases ts,
{
    if ts.len() == 0 {
        Seq::empty()
    } else if ts.len() == 1 {
        type_name_text(ts[0])
    } else {
        type_names_text(ts.drop_last()) + ", "@ + type_name_text(ts.last())
    }
}

/// Show a list of types.
fn describe_types(ts: &Vec<Type>) -> (s: String)
    ensures
        s@ == types_text(view_types(ts@)),
    decreases ts,
{
    proof {
        lemma_view_types(ts@);
    }
    let mut s = String::new();
    let mut k: usize = 0;
    while k < ts.len()
        invariant
            k <= ts@.len(),
            view_types(ts@).len() == ts@.len(),
            forall|i: int| 0 <= i < ts@.len() ==> #[trigger] view_types(ts@)[i] == ts@[i]@,
            s@ == types_text(view_types(ts@).take(k as int)),
        decreases ts.len() - k,
    {
        assert(decreases_to!(ts => ts@[k as int]));
        let ghost before = view_types(ts@).take(k as int);
        let ghost after = view_types(ts@).take(k + 1);
        assert(after.drop_last() =~= before);
        assert(after.last() == ts@[k as int]@);
        if k > 0 {
            s.append(", ");
        }
        let part = ts[k].describe();
        s.append(part.as_str());
        proof {
            if k == 0 {
                assert(after =~= seq![ts@[0]@]);
            }
        }
        k = k + 1;
    }
    assert(view_types(ts@).take(ts@.len() as int) =~= view_types(ts@));
    s
}

impl Type {
    /// How the type is shown in a message.
    pub fn describe(&self) -> (s: String)
        ensures
            s@ == type_text(self@),
        decreases self,
    {
        match self {
            Type::Integer => String::from_str("Integer"),
            Type::FloatingPoint => String::from_str("FloatingPoint"),
            Type::Boolean => String::from_str("Boolean"),
            Type::Character => String::from_str("Character"),
            Type::String => String::from_str("String"),
            Type::Void => String::from_str("Void"),
            Type::Unknown => String::from_str("Unknown"),
            Type::Reference(inner) => {
                let mut s = String::from_str("Reference(");
                let part = (**inner).describe();
                s.append(part.as_str());
                s.append(")");
                s
            },
            Type::Tuple(elements) => {
                let mut s = String::from_str("Tuple([");
                let part = describe_types(elements);
                s.append(part.as_str());
                s.append("])");
                s
            },
            Type::Array(inner) => {
                let mut s = String::from_str("Array(");
                let part = (**inner).describe();
                s.append(part.as_str());
                s.append(")");
                s
            },
            Type::Struct(name, _) => {
                let mut s = String::from_str("struct ");
                s.append(name.as_str());
                s
            },
            Type::Function { params, return_value } => {
                let mut s = String::from_str("(");
                let part = describe_types(params);
                s.append(part.as_str());
                s.append(") -> ");
                let ret = (**return_value).describe();
                s.append(ret.as_str());
                s
            },
        }
    }
}

proof fn lemma_view_names(ts: Seq<TypeName>)
    ensures
        view_names(ts).len() == ts.len(),
        forall|i: int| 0 <= i < ts.len() ==> #[trigger] view_names(ts)[i] == ts[i]@,
    decreases ts.len(),
{
    if ts.len() > 0 {
        lemma_view_names(ts.drop_last());
        assert(view_names(ts) == view_names(ts.drop_last()).push(ts.last()@));
        assert forall|i: int| 0 <= i < ts.len() implies #[trigger] view_names(ts)[i] == ts[i]@ by {
            if i < ts.len() - 1 {
                assert(ts.drop_last()[i] == ts[i]);
            }
        }
    }
}

/// Show a list of type names.
fn describe_type_names(ts: &Vec<TypeName>) -> (s: String)
    ensures
        s@ == type_names_text(view_names(ts@)),
    decreases ts,
{
    proof {
        lemma_view_names(ts@);
    }
    let mut s = String::new();
    let mut k: usize = 0;
    while k < ts.len()
        invariant
            k <= ts@.len(),
            view_names(ts@).len() == ts@.len(),
            forall|i: int| 0 <= i < ts@.len() ==> #[trigger] view_names(ts@)[i] == ts@[i]@,
            s@ == type_names_text(view_names(ts@).take(k as int)),
        decreases ts.len() - k,
    {
        assert(decreases_to!(ts => ts@[k as int]));
        let ghost before = view_names(ts@).take(k as int);
        let ghost after = view_names(ts@).take(k + 1);
        assert(after.drop_last() =~= before);
        assert(after.last() == ts@[k as int]@);
        if k > 0 {
            s.append(", ");
        }
        let part = describe_type_name(&ts[k]);
        s.append(part.as_str());
        proof {
            if k == 0 {
                assert(after =~= seq![ts@[0]@]);
            }
        }
        k = k + 1;
    }
    assert(view_names(ts@).take(ts@.len() as int) =~= view_names(ts@));
    s
}

/// How a type name is shown in a message.
pub fn describe_type_name(t: &TypeName) -> (s: String)
    ensures
        s@ == type_name_text(t@),
    decreases t,
{
    match t {
        TypeName::Literal(name, _) => name.clone(),
        TypeName::Fn { params, return_type, .. } => {
            let mut s = String::from_str("(");
            let part = describe_type_names(params);
            s.append(part.as_str());
            s.append(") -> ");
            let ret = describe_type_name(&**return_type);
            s.append(ret.as_str());
            s
        },
        TypeName::Tuple(elements, _) => {
            let mut s = String::from_str("(");
            let part = describe_type_names(elements);
            s.append(part.as_str());
            s.append(")");
            s
        },
        TypeName::Array(inner, _) => {
            let mut s = String::from_str("[");
            let part = describe_type_name(&**inner);
            s.append(part.as_str());
            s.append("]");
            s
        },
        TypeName::Reference(inner, _) => {
            let mut s = String::from_str("&");
            let part = describe_type_name(&**inner);
            s.append(part.as_str());
            s
        },
    }
}

} // verus!
