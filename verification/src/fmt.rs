//! Laying out syntax as text.

pub mod comment_laws;
pub mod declaration;
pub mod expression;
pub mod has_comments;
pub mod items;
pub mod layout;
pub mod measure;
pub mod name;
pub mod print;
pub mod types;
