use vstd::prelude::*;

pub mod text;
pub mod lexer;
pub mod ast;
pub mod copy;
pub mod view;
pub mod grammar;
pub mod parser;
pub mod compiler;
pub mod messages;
pub mod validator;
pub mod diagnostics;
pub mod laws;

verus! {

} // verus!
