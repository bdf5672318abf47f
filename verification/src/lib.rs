//! An interpreter for the COW programming language.

pub mod brackets;
pub mod errors;
pub mod instruction;
pub mod interpreter;
pub mod lexer;
pub mod machine;
pub mod number;
