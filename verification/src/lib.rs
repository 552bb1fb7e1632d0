//! A preprocessor for spec documents written as HTML with an embedded
//! metadata block and `[NAME]` text macros.
//!
//! The pipeline scans a line-numbered source for a metadata block, parses
//! typed key/value pairs out of it, merges several metadata records in a
//! fixed precedence order, derives a table of text macros from the merged
//! record, splices boilerplate around the body, and expands the macros.

pub mod assemble;
pub mod boilerplate;
pub mod date;
pub mod status;
pub mod diagnostics;
pub mod join;
pub mod macros;
pub mod manager;
pub mod parse;
pub mod record;
pub mod scanner;
pub mod strutil;
