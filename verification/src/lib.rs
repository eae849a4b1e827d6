use vstd::prelude::*;

pub mod lexer;
pub mod parser;
pub mod typechecker;

verus! {
}
