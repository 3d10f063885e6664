//! A small scripting language: a scanner, a precedence-climbing parser and a
//! tree-walking evaluator driven one step at a time.
pub mod token;
pub mod tokenizer;
pub mod ast;
pub mod parser;
pub mod values;
pub mod environment;
pub mod evaluator;
