//! Serialize a directory tree into a single Markdown document: each directory
//! becomes a heading, each eligible file a heading plus a fenced code block
//! tagged with a language inferred from the file extension.
//!
//! The library is the pure core: extension classification, path/title
//! handling, and the assembly of the Markdown document from an already-walked
//! sequence of tree entries. Walking the filesystem and reading files is the
//! caller's concern; outcomes are handed in as plain values.

pub mod classify;
pub mod paths;
pub mod render;
pub mod laws;
