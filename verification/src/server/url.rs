//! The route pattern language: its tokens, its parser and its matcher.
pub mod error;
pub mod token;
pub mod var;
pub mod segment;
pub mod parser;
