//! Runs a tree-sitter query over source text and projects the captured
//! syntax nodes into named, positioned text matches.
pub mod query;
