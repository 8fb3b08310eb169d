//! A small imperative scripting language: a lexer, a parser and a
//! tree-walking interpreter with lexically scoped variables.
//!
//! Source text is lexed into tokens (`lexer`), the tokens are parsed into a
//! program (`parser`), and the program is run (`interpreter`). What each stage
//! computes is defined on mathematical values in `lexemes`, `grammar` and
//! `semantics`; the stages are proved to compute just that. `laws` holds what
//! follows for the scoping of names, for `return`, and for the bounds of a
//! run.
//!
//! Numbers are 64-bit floating-point values. The library holds them as their
//! bits and asks a host function, which its caller supplies, for every
//! operation on them (`host`).

pub mod std_specs;
pub mod token;
pub mod lexemes;
pub mod lexer;
pub mod ast;
pub mod grammar;
pub mod parser;
pub mod object;
pub mod context;
pub mod environment;
pub mod host;
pub mod stdlib;
pub mod semantics;
pub mod interpreter;
pub mod laws;
