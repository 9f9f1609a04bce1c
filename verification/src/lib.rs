//! Parsing of SimplicityHL token trees into an abstract syntax tree.

pub mod span;
pub mod text;
pub mod tree;
pub mod num;
pub mod ast;
pub mod types;
pub mod pattern;
pub mod error;
pub mod hex;
pub mod parse;
pub mod laws;
pub mod traverse;
pub mod positions;
