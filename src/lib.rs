//! A backtracking recursive-descent parsing engine: a cursor over Unicode
//! scalar values, a parse stream with transactional attempts and nested span
//! tracking, and the `Parse` capability that grammar entities implement.
//!
//! The input is held decoded, as a slice of `char`; `utf8` decodes raw bytes
//! one scalar value at a time for callers that keep UTF-8.

pub mod span;
pub mod cursor;
pub mod unicode;
pub mod parse;
pub mod text;
pub mod grammar;
pub mod bytecode;
pub mod vm;
pub mod utf8;
pub mod ringbuf;
pub mod compiler;
pub mod debug;

pub use parse::{exhaustive_parse, parse, parse_stream, Parse, ParseError, ParseStream, Result};
pub use span::{Span, Spanned};
