//! A compiler front end and code generator for a small C-like language:
//! integer and float variables, arithmetic expressions, `return`,
//! `printf`/`scanf` statements and `#`-header directives are lowered from
//! source text into a typed, basic-block intermediate representation.
//!
//! The pipeline is linear: source text -> tokens (`lexer`) -> abstract
//! syntax tree (`parser`, `ast`) -> IR module (`codegen`, `ir`); `sem`
//! holds the mathematical semantics the contracts are stated against.

pub mod ast;
pub mod codegen;
pub mod ir;
pub mod lexer;
pub mod parser;
pub mod sem;
