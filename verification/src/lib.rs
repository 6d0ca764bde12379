//! A format-preserving document model for TOML-like configuration text.
//!
//! The crate holds four parts: the escape and unescape transcoders, the
//! quoting of strings and key segments, the ordered tree of tables, arrays
//! and items with its merge, and the two renderers that turn a tree back
//! into text.

pub mod ast;
pub mod comment;
pub mod convert;
pub mod date_time;
pub mod escape;
pub mod format;
pub mod key;
pub mod merge;
pub mod number;
pub mod order;
pub mod quotes;
pub mod table;
pub mod text;
pub mod value;
