//! The syntax that the checker reads and writes: names, types and typed expressions.

pub mod expression;
pub mod name;
pub mod types;
