//! Lexical literals: numbers and strings.

pub mod number;
pub mod string;
