//! The body of a response: a tree of values whose strings may hold
//! placeholders.
pub mod number;
pub mod value;
pub mod dynamic;
pub mod body;
pub mod fake;
pub mod placeholder;
pub mod resolve;
pub mod equality;
pub mod load;
