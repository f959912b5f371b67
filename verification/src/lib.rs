//! A small interpreter for a language made only of calls: a lexer, a
//! recursive-descent parser and a tree-walking evaluator, each with a
//! mathematical model that its executable code is proved against.

pub mod text;
pub mod tokens;
pub mod lexer;
pub mod ast;
pub mod parser;
pub mod interpreter;
pub mod pipeline;
pub mod diagnostic;
pub mod determinism;
