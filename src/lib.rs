//! A small scripting language in the ECMAScript family: a lexer, a
//! recursive-descent parser, an AST optimizer and a tree-walking evaluator.
//!
//! Numbers of the language are held as exact 64-bit signed integers: the
//! lexer only produces integer literals, and arithmetic that leaves that range
//! or divides by zero is reported instead of rounded.
pub mod token;
pub mod lexer;
pub mod ast;
pub mod grammar;
pub mod number;
pub mod parser;
pub mod frames;
pub mod optim;
pub mod scope;
pub mod same;
pub mod values;
pub mod builtins;
pub mod semantics;
pub mod interpreter;
pub mod pipeline;
pub mod laws;
