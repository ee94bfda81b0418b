use vstd::prelude::*;

pub mod text;
pub mod token;
pub mod lexer;
pub mod expr;
pub mod stmt;
pub mod grammar;
pub mod parser;
pub mod environment;
pub mod natives;
pub mod arrays;
pub mod interpreter;
pub mod errors;
pub mod pipeline;

verus! {
} // verus!
