//! Incremental, non-blocking parsing of HTTP/1.x response messages.
//!
//! The parser never performs I/O itself. Each entry point takes the outcome of
//! the last transport read as an event and answers with the next action: read
//! again, or return a result to the caller.

pub mod buffer;
pub mod decoder;
pub mod error;
pub mod headers;
pub mod laws;
pub mod message;
pub mod parser;
pub mod response;
pub mod text;
pub mod tokenizer;
pub mod transport;
