//! Scanner for a small C-like scripting language: source text in, classified
//! tokens out, with every function's behaviour stated and proved.

pub mod ast;
pub mod character;
pub mod text;
pub mod token;
pub mod scan;
pub mod stream;
pub mod lexer;
pub mod repl;
pub mod parser;
