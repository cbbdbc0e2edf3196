//! Type inference for a small functional language, with the syntax tokens it reads.

pub mod ast;
pub mod cst;
pub mod fmt;
pub mod make;
pub mod result;
pub mod supply;
pub mod table;
pub mod token;
pub mod typechecker;
