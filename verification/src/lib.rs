//! Ghucl: a request-composition core.
//!
//! The library models partially specified HTTP requests read from TOML
//! fragments, merges them with last-wins precedence, resolves the merged
//! fragment into a concrete request, and drives a rooted directory
//! navigator used to pick the fragment files.

pub mod file_tree;
pub mod headers;
pub mod message;
pub mod parse;
pub mod request;
pub mod response;
pub mod text;
