//! The verified core of a tree-walking interpreter for a small dynamically
//! typed scripting language: runtime values, the chain of lexical scopes,
//! a definitional semantics for statements and expressions, and an
//! evaluator proved to realize that semantics exactly.

use vstd::prelude::*;

pub mod ast;
pub mod environment;
pub mod error;
pub mod value;
pub mod interpreter;
pub mod parser;
pub mod scanner;
pub mod semantics;
pub mod token;

verus! {

} // verus!
