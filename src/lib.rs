//! A lexer for arithmetic expressions that tracks the line and column of
//! every character it consumes.
pub mod chars;
pub mod error;
pub mod laws;
pub mod lexer;
pub mod model;
pub mod position;
pub mod token;
