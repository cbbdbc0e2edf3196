//! The decisions of the build: what a file's name says it holds, when a
//! change on disk is worth a new build, and what a line of the build tool's
//! output means.

pub mod compile;
pub mod package_json;
pub mod version;
pub mod watch;
