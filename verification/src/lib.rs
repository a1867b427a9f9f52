//! A small arithmetic expression language: a finite-state tokenizer, a
//! precedence-climbing recursive-descent parser, and a tree-walking
//! evaluator with a mutable variable environment and a pluggable
//! builtin-function capability, generic over an abstract numeric backend.

pub mod ast;
pub mod chars;
pub mod evaluator;
pub mod int64;
pub mod lexer;
pub mod numeric;
pub mod parser;
pub mod token;
