//! A recursive-descent parser for a small expression/statement language.
//!
//! The parser turns a finite sequence of lexical tokens into an abstract
//! syntax tree: variable declarations (with an explicit type annotation or
//! with inference requested), blocks, binary arithmetic, parenthesized
//! groups, and single-argument function calls.  Every parsing routine is
//! specified against a mathematical model of the grammar (`grammar`), so the
//! exact tree produced for every token sequence — and the exact error
//! returned when a parse fails — is pinned down by the contracts.

pub mod ast;
pub mod error;
pub mod grammar;
pub mod laws;
pub mod parser;
pub mod token;
pub mod types;
