//! A small Lox-like scripting language with two back ends: a single-pass
//! compiler to bytecode run by a stack machine, and a tree-walking
//! interpreter over chained scopes.
//!
//! Both back ends read the same source language through the same lexical
//! grammar ([`lexer`]). The bytecode path is [`scanner`], [`compile`],
//! [`chunk`] and [`vm`], put together in [`interpret`], with [`safety`] and
//! [`binding`] for what the compiler guarantees to the machine. The tree-walking path is in [`treewalk`]: its scanner, the
//! grammar and the parser, the scopes, and the semantics with the interpreter.
//!
//! Numbers are IEEE-754 binary64 values held by their bit pattern in a `u64`.
//! Comparison, equality and negation are decided on the bits here. Sums,
//! differences, products, quotients and the value of a number literal are
//! asked of a numeric kernel that the caller hands in (see [`number`]); the
//! contracts say what is computed for whatever arithmetic the kernel computes.
//!
//! Nothing here prints. The machine hands back the value of its `Return`, the
//! interpreter keeps what a program prints until it is taken, and errors are
//! values with a rendering as text.

pub mod number;
pub mod text;
pub mod token;
pub mod custom_error;
pub mod lexer;
pub mod scanner;
pub mod value;
pub mod chunk;
pub mod vm;
pub mod compile;
pub mod safety;
pub mod binding;
pub mod interpret;
pub mod treewalk;
