//! A cursor over a sequence of tokens, with the errors collected while parsing.
use vstd::prelude::*;

use crate::parser::ParseError;

verus! {

/// A cursor over a vector of tokens.
#[derive(Debug, Clone, PartialEq, Eq)]
pub struct ParseState<T> {
    tokens: Vec<T>,
    index: usize,
    pub errors: Vec<ParseError>,
}

impl<T: Clone> ParseState<T> {
    /// The tokens the cursor runs over.
    pub closed spec fn spec_tokens(&self) -> Seq<T> {
        self.tokens@
    }

    /// The errors recorded so far.
    pub closed spec fn spec_errors(&self) -> Seq<ParseError> {
        self.errors@
    }

    /// The position of the cursor.
    pub closed spec fn spec_index(&self) -> int {
        self.index as int
    }

    pub fn new(tokens: Vec<T>) -> (s: Self)
        ensures
            s.spec_tokens() == tokens@,
            s.spec_index() == 0,
            s.spec_errors() == Seq::<ParseError>::empty(),
    {
        ParseState { tokens, index: 0, errors: Vec::new() }
    }

    /// Take the token under the cursor (if any) and move past it.
    pub fn next(&mut self) -> (item: Option<T>)
        ensures
            final(self).spec_tokens() == old(self).spec_tokens(),
            final(self).spec_errors() == old(self).spec_errors(),
            0 <= old(self).spec_index() < old(self).spec_tokens().len() ==> {
                &&& item matches Some(t) && cloned(old(self).spec_tokens()[old(self).spec_index()], t)
                &&& final(self).spec_index() == old(self).spec_index() + 1
            },
            !(0 <= old(self).spec_index() < old(self).spec_tokens().len()) ==> {
                &&& item is None
                &&& final(self).spec_index() == old(self).spec_index()
            },
    {
        if self.index < self.tokens.len() {
            let item = self.tokens[self.index].clone();
            self.index = self.index + 1;
            return Some(item);
        }
        None
    }

    /// The token under the cursor, if any.
    pub fn peek(&self) -> (item: Option<T>)
        ensures
            0 <= self.spec_index() < self.spec_tokens().len() ==> (item matches Some(t) && cloned(
                self.spec_tokens()[self.spec_index()],
                t,
            )),
            !(0 <= self.spec_index() < self.spec_tokens().len()) ==> item is None,
    {
        if self.index < self.tokens.len() {
            Some(self.tokens[self.index].clone())
        } else {
            None
        }
    }

    /// The token just before the cursor, if any.
    pub fn peek_reverse(&self) -> (item: Option<T>)
        ensures
            0 < self.spec_index() <= self.spec_tokens().len() ==> (item matches Some(t) && cloned(
                self.spec_tokens()[self.spec_index() - 1],
                t,
            )),
            !(0 < self.spec_index() <= self.spec_tokens().len()) ==> item is None,
    {
        if self.index > 0 && self.index - 1 < self.tokens.len() {
            return Some(self.tokens[self.index - 1].clone());
        }
        None
    }

    /// The position of the cursor.
    pub fn get_index(&self) -> (i: usize)
        ensures
            i == self.spec_index(),
    {
        self.index
    }

    /// Move the cursor to `index`.
    pub fn set_index(&mut self, index: usize)
        ensures
            final(self).spec_index() == index,
            final(self).spec_tokens() == old(self).spec_tokens(),
            final(self).spec_errors() == old(self).spec_errors(),
    {
        self.index = index;
    }

    /// Record an error.
    pub fn add_error(&mut self, error: ParseError)
        ensures
            final(self).spec_errors() == old(self).spec_errors().push(error),
            final(self).spec_index() == old(self).spec_index(),
            final(self).spec_tokens() == old(self).spec_tokens(),
    {
        self.errors.push(error);
    }

    /// Take the errors recorded so far, leaving none.
    pub fn take_errors(&mut self) -> (errors: Vec<ParseError>)
        ensures
            errors@ == old(self).spec_errors(),
            final(self).spec_errors() == Seq::<ParseError>::empty(),
            final(self).spec_index() == old(self).spec_index(),
            final(self).spec_tokens() == old(self).spec_tokens(),
    {
        let mut errors = Vec::new();
        std::mem::swap(&mut errors, &mut self.errors);
        errors
    }

    /// Put back a list of errors in place of the recorded ones.
    pub fn restore_errors(&mut self, errors: Vec<ParseError>)
        ensures
            final(self).spec_errors() == errors@,
            final(self).spec_index() == old(self).spec_index(),
            final(self).spec_tokens() == old(self).spec_tokens(),
    {
        self.errors = errors;
    }

    /// How many tokens the cursor runs over.
    pub fn token_count(&self) -> (n: usize)
        ensures
            n == self.spec_tokens().len(),
    {
        self.tokens.len()
    }

    /// The last token of the whole sequence, if any.
    pub fn last_token(&self) -> (item: Option<T>)
        ensures
            self.spec_tokens().len() > 0 ==> (item matches Some(t) && cloned(
                self.spec_tokens().last(),
                t,
            )),
            self.spec_tokens().len() == 0 ==> item is None,
    {
        if self.tokens.len() > 0 {
            Some(self.tokens[self.tokens.len() - 1].clone())
        } else {
            None
        }
    }
}

impl<T: Clone> From<Vec<T>> for ParseState<T> {
    /// A cursor at the start of `value`, with no errors.
    fn from(value: Vec<T>) -> (s: Self)
        ensures
            s.spec_tokens() == value@,
            s.spec_index() == 0,
            s.spec_errors() == Seq::<ParseError>::empty(),
    {
        ParseState::new(value)
    }
}

/// The result of `from` is stated by its own `ensures` over the spec accessors; a whole
/// `ParseState` value, with its vector of errors, has no spec constructor to compare with.
impl<T: Clone> vstd::std_specs::convert::FromSpecImpl<Vec<T>> for ParseState<T> {
    open spec fn obeys_from_spec() -> bool {
        false
    }

    open spec fn from_spec(v: Vec<T>) -> Self {
        arbitrary()
    }
}

} // verus!
