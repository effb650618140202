//! Completions: for paths, and for what the build tool has built in.

pub mod builtin;
pub mod path_complete;
