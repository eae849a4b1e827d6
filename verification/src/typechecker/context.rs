//! The context the type checker carries: the current lexical scope.
use vstd::prelude::*;

use crate::typechecker::scope::{Scope, ScopeV, empty_frame};

verus! {

/// The inference context: the current lexical scope.
#[derive(Debug)]
pub struct Context {
    pub scope: Scope,
}

impl View for Context {
    type V = ScopeV;

    open spec fn view(&self) -> ScopeV {
        self.scope@
    }
}

impl Clone for Context {
    fn clone(&self) -> (r: Context)
        ensures
            r@ == self@,
    {
        Context { scope: self.scope.clone() }
    }
}

impl Default for Context {
    fn default() -> (c: Context)
        ensures
            c@.frames == seq![empty_frame()],
            c@.methods == Map::<crate::typechecker::types::TypeV, Map<Seq<char>, crate::typechecker::types::TypeV>>::empty(),
    {
        Context { scope: Scope::new() }
    }
}

/// Contexts do not take part in the comparison of the values that carry them: any two are
/// equal.
impl PartialEq for Context {
    fn eq(&self, other: &Self) -> (r: bool) {
        true
    }
}

impl vstd::std_specs::cmp::PartialEqSpecImpl for Context {
    open spec fn obeys_eq_spec() -> bool {
        true
    }

    open spec fn eq_spec(&self, other: &Self) -> bool {
        true
    }
}

impl Eq for Context {
}

} // verus!
