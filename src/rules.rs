//! The rule language: lexer, parser and evaluator.
pub mod error;
pub mod expr;
pub mod grammar;
pub mod lexer;
pub mod object;
pub mod parser;
pub mod rule;
pub mod scope;
pub mod value;
