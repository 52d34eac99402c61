//! Front-end grammar engine of a small programming language: it turns raw
//! source text into a validated abstract syntax tree, or into positioned
//! diagnostics when the input is malformed.
//!
//! The grammar is specified by `spec fn`s over byte sequences (one spec
//! function per nonterminal, forming a PEG-style ordered-choice grammar),
//! and every executable parse function is verified to agree with its spec
//! function exactly, on success and on failure.

pub mod ast;
pub mod bin_ops;
pub mod diag;
pub mod expr;
pub mod ident;
pub mod literals;
pub mod scan;
pub mod statement;
pub mod syntax_elements;
pub mod type_literal;

pub use ast::Ast;
pub use diag::Diagnostic;
