//! Arithmetic expressions: a lexeme model, a lazy tokenizer, a precedence-climbing
//! parser and the syntax tree it builds.
pub mod ast;
pub mod parse_laws;
pub mod parser;
pub mod token;
pub mod tokenizer;
