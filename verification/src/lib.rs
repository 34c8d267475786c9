//! A tree-walking interpreter for a small dynamically typed scripting
//! language: a lexer, a recursive-descent parser and an evaluator over
//! lexically scoped environments.

pub mod text;
pub mod token;
pub mod lexer;
pub mod parser;
pub mod environment;
pub mod evaluator;
pub mod driver;

use vstd::prelude::*;

verus! {

} // verus!
