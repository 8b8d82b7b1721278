//! A small ECMAScript front end: a tokenizer that turns source text into a
//! stream of classified tokens, and a recursive-descent parser that builds an
//! abstract syntax tree for the supported statement forms (import
//! declarations and variable declarations).

pub mod ast;
pub mod chars;
pub mod parser;
pub mod tokenizer;
