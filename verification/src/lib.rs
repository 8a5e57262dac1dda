//! A tree-walking interpreter for a small dynamically typed scripting
//! language: lexer, operator-precedence parser, value and environment model,
//! and evaluator, each stated against a mathematical model and proved.

pub mod ast;
pub mod builtins;
pub mod eval;
pub mod grammar;
pub mod laws;
pub mod lexer;
pub mod object;
pub mod parser;
pub mod progress;
pub mod repl;
pub mod semantics;
pub mod text;
pub mod token;
