//! Render the documentation block of a rustdoc HTML page as Markdown.
//!
//! The crate is organised around a depth-first traversal engine that walks a
//! parsed HTML fragment and emits Markdown into an append-only output
//! buffer.  Three tag handlers carry the interesting rules: the anchor
//! handler resolves hyperlinks, the header handler emits ATX headings, and
//! the code handler fences code blocks.  Every other tag is transparent:
//! its children are rendered and no markup is added.

pub mod anchor_handler;
pub mod buffer;
pub mod chain;
pub mod code_handler;
pub mod convert;
pub mod dom;
pub mod engine;
pub mod header_handler;
pub mod markdown;
pub mod strutil;
pub mod urls;
