//! Cross-reference checking for source trees.
//!
//! Text files may carry bracketed directives: tags (`[tag:label]`), references
//! to tags (`[ref:label]`), and references to files and directories
//! (`[file:path]`, `[dir:path]`). This library extracts the directives of a
//! file, collects the directives of many files, and decides whether every tag
//! is unique and every reference resolves.

pub mod aggregate;
pub mod citations;
pub mod collections;
pub mod command;
pub mod dir_references;
pub mod directive;
pub mod duplicates;
pub mod file_references;
pub mod label;
pub mod lines;
pub mod lookup;
pub mod matcher;
pub mod order;
pub mod references;
pub mod report;
pub mod scan;
pub mod settings;
pub mod tag_references;
pub mod text;
