use vstd::prelude::*;

pub mod position;
pub mod token;
pub mod lexer;
pub mod laws;
pub mod text;
pub mod config;
pub mod transform;
pub mod git;
pub mod cli;
pub mod utils;

verus! {

} // verus!
