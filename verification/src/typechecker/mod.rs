//! Type checking of Y programs: every node of the syntax tree gets the type it has, and the
//! program is checked to be well typed.
use vstd::prelude::*;
use vstd::string::StringExecFns;

pub mod check;
pub mod context;
pub mod describe;
pub mod error;
pub mod program;
pub mod revert;
pub mod rules;
pub mod scope;
pub mod types;
pub mod validate;

pub use self::context::Context;
pub use self::error::TypeCheckError;
pub use self::program::TypeChecker;
pub use self::types::Type;

use crate::lexer::Span;
use crate::typechecker::types::opt_view;

verus! {

/// The type a node has as far as it is known yet, and the context it was checked in.
#[derive(Debug, PartialEq, Eq)]
pub struct TypeInformation {
    pub type_id: Option<Type>,
    pub context: Context,
}

impl Clone for TypeInformation {
    fn clone(&self) -> (r: Self)
        ensures
            opt_view(r.type_id) == opt_view(self.type_id),
            r.context@ == self.context@,
    {
        let type_id = match &self.type_id {
            Some(t) => Some(t.clone()),
            None => None,
        };
        TypeInformation { type_id, context: self.context.clone() }
    }
}

/// The type a node has, known for certain, and the context it was checked in.
#[derive(Debug)]
pub struct ValidatedTypeInformation {
    pub type_id: Type,
    pub context: Context,
}

impl Clone for ValidatedTypeInformation {
    fn clone(&self) -> (r: Self)
        ensures
            r.type_id@ == self.type_id@,
            r.context@ == self.context@,
    {
        ValidatedTypeInformation { type_id: self.type_id.clone(), context: self.context.clone() }
    }
}

/// A node whose type is still unknown after checking.
#[derive(Clone, Debug, PartialEq, Eq)]
pub struct TypeValidationError(pub Span);

impl TypeInformation {
    /// Whether the type is known.
    pub fn has_type(&self) -> (b: bool)
        ensures
            b == self.type_id is Some,
    {
        self.type_id.is_some()
    }

    /// The information with a type known for certain; a node written at `position` whose type
    /// is unknown is an error there.
    pub fn validate(self, position: &Span) -> (r: Result<ValidatedTypeInformation, TypeValidationError>)
        ensures
            match self.type_id {
                Some(t) => r matches Ok(v) && v.type_id == t && v.context == self.context,
                None => r == Err::<ValidatedTypeInformation, TypeValidationError>(
                    TypeValidationError(*position),
                ),
            },
    {
        let TypeInformation { type_id, context } = self;
        match type_id {
            Some(type_id) => Ok(ValidatedTypeInformation { type_id, context }),
            None => Err(TypeValidationError(*position)),
        }
    }
}

impl TypeValidationError {
    /// Where the node with the unknown type was written.
    pub fn span(&self) -> (s: Span)
        ensures
            s == self.0,
    {
        self.0
    }

    /// The message that describes the error.
    pub fn err(&self) -> (m: String)
        ensures
            m@ == "Type must be known at compile time!"@,
    {
        String::from_str("Type must be known at compile time!")
    }
}

} // verus!
