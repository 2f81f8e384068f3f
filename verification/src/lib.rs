//! Recursively tallies lines of text across a directory tree.
//!
//! The library works on an in-memory picture of a directory tree: the
//! caller enumerates the filesystem, loads each file's bytes, and hands
//! the result to the walker, which filters entries, resolves a character
//! encoding per file, classifies decoded lines as blank or non-blank,
//! and folds the per-file tallies into an additive per-subtree aggregate.

pub mod counter_walker;
pub mod encoding;
pub mod fs_tree;
pub mod line_processor;
pub mod line_counter;
pub mod result_printer;
pub mod summarizer;
pub mod text;
