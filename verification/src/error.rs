//! The two error domains: the header phase and the payload phase.

use vstd::prelude::*;

verus! {

/// A failure while reading the status line and header block.
#[derive(Debug)]
pub enum ParseError {
    /// The status line does not name a known HTTP version.
    Version,
    /// A header line is malformed: a bad name, a bad value, a bad line end, or
    /// a `Content-Length` that is not a decimal number.
    Header,
    /// The header block has too many lines or outgrew the read buffer.
    TooLarge,
    /// The status line or its status code is invalid.
    Status,
    /// The transport failed.
    Io(std::io::Error),
}

/// How a body's framing was violated.
#[derive(Debug, Clone, Copy, PartialEq, Eq, Structural)]
pub enum FramingError {
    /// A chunk size holds a byte that is no hexadecimal digit, or does not fit
    /// in 64 bits.
    ChunkSize,
    /// The line that carries a chunk size does not end as it must.
    ChunkSizeLine,
    /// The bytes of a chunk are not followed by a line end.
    ChunkBody,
    /// The last chunk is not followed by the closing line end.
    ChunkEnd,
}

/// A failure while reading the body.
#[derive(Debug)]
pub enum PayloadError {
    /// The peer closed the connection before the promised body was complete.
    Incomplete,
    /// The body decoder found malformed framing.
    Framing(FramingError),
    /// The transport failed.
    Io(std::io::Error),
}

/// What the header phase reports to the caller when it fails.
#[derive(Debug)]
pub enum HttpResponseParserError {
    /// The peer closed the connection before a full head was available.
    Disconnect,
    /// The head could not be parsed, or the transport failed.
    Error(ParseError),
}

/// The parse error that stands for each tokenizer error.
pub open spec fn parse_error_of(e: httparse::Error) -> ParseError {
    match e {
        httparse::Error::HeaderName => ParseError::Header,
        httparse::Error::HeaderValue => ParseError::Header,
        httparse::Error::NewLine => ParseError::Header,
        httparse::Error::Token => ParseError::Header,
        httparse::Error::Status => ParseError::Status,
        httparse::Error::TooManyHeaders => ParseError::TooLarge,
        httparse::Error::Version => ParseError::Version,
    }
}

impl ParseError {
    /// The parse error that stands for a tokenizer error.
    pub fn from_tokenizer(e: httparse::Error) -> (r: ParseError)
        ensures
            r == parse_error_of(e),
    {
        match e {
            httparse::Error::HeaderName => ParseError::Header,
            httparse::Error::HeaderValue => ParseError::Header,
            httparse::Error::NewLine => ParseError::Header,
            httparse::Error::Token => ParseError::Header,
            httparse::Error::Status => ParseError::Status,
            httparse::Error::TooManyHeaders => ParseError::TooLarge,
            httparse::Error::Version => ParseError::Version,
        }
    }
}

} // verus!
