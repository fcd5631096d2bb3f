//! The tree-walking back end: tokens that own their text, the syntax tree,
//! the parser that builds it, and the interpreter that evaluates it against
//! chained scopes.

pub mod token_type;
pub mod callable;
pub mod token;
pub mod expressions;
pub mod statement;
pub mod scanner;
pub mod grammar;
pub mod parser;
pub mod runtime_error;
pub mod environment;
pub mod semantics;
pub mod evaluate;
pub mod scoping;
pub mod runner;
