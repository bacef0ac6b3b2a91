//! The status-line and header-block tokenizer, `httparse`.
//!
//! The tokenizer is run once over the whole readable window. It either finds a
//! complete head, asks for more bytes, or rejects the window.

use vstd::prelude::*;

verus! {

/// Why the tokenizer rejected a window, `httparse::Error`.
#[verifier::external_type_specification]
pub struct ExTokenizerError(httparse::Error);

/// One header line as the tokenizer found it: the name and the value, copied
/// out of the window.
#[derive(Debug)]
pub struct RawHeader {
    pub name: Vec<u8>,
    pub value: Vec<u8>,
}

/// A complete status line and header block.
#[derive(Debug)]
pub struct RawHead {
    /// How many bytes of the window the head occupies.
    pub len: usize,
    /// The minor HTTP version: `1` for HTTP/1.1.
    pub minor_version: u8,
    /// The status code as written in the status line.
    pub code: u16,
    /// The header lines in the order they were received.
    pub headers: Vec<RawHeader>,
}

/// The tokenizer's verdict on a window.
#[derive(Debug)]
pub enum Tokenized {
    /// The window starts with a complete head.
    Complete(RawHead),
    /// No invalid byte was found, but the head is not complete yet.
    Partial,
    /// The window does not start a valid head.
    Failed(httparse::Error),
}

/// A header line as plain values: name bytes, then value bytes.
pub type HeaderLine = (Seq<u8>, Seq<u8>);

/// A complete head as plain values.
pub struct HeadModel {
    pub len: nat,
    pub minor_version: u8,
    pub code: u16,
    pub headers: Seq<HeaderLine>,
}

/// The tokenizer's verdict as plain values.
pub enum TokenizedModel {
    Complete(HeadModel),
    Partial,
    Failed(httparse::Error),
}

impl View for RawHeader {
    type V = HeaderLine;

    open spec fn view(&self) -> HeaderLine {
        (self.name@, self.value@)
    }
}

impl View for RawHead {
    type V = HeadModel;

    open spec fn view(&self) -> HeadModel {
        HeadModel {
            len: self.len as nat,
            minor_version: self.minor_version,
            code: self.code,
            headers: self.headers@.map_values(|h: RawHeader| h@),
        }
    }
}

impl View for Tokenized {
    type V = TokenizedModel;

    open spec fn view(&self) -> TokenizedModel {
        match *self {
            Tokenized::Complete(head) => TokenizedModel::Complete(head@),
            Tokenized::Partial => TokenizedModel::Partial,
            Tokenized::Failed(e) => TokenizedModel::Failed(e),
        }
    }
}

/// What `httparse::Response::parse` makes of a window when it has room for
/// `max_headers` header lines.
pub uninterp spec fn tokenized(window: Seq<u8>, max_headers: usize) -> TokenizedModel;

/// Runs `httparse::Response::parse` over `window` with `max_headers` header
/// slots and copies the outcome out. The outcome is a function of the two
/// arguments alone. A complete head never extends past the window, since its
/// length counts bytes consumed from it, and never holds more header lines
/// than there were slots.
#[verifier::external_body]
pub(crate) fn run_tokenizer(window: &[u8], max_headers: usize) -> (out: Tokenized)
    ensures
        out@ == tokenized(window@, max_headers),
        out matches Tokenized::Complete(head) ==> head.len <= window@.len()
            && head.headers@.len() <= max_headers,
{
    let mut slots = vec![httparse::EMPTY_HEADER; max_headers];
    let mut response = httparse::Response::new(&mut slots);
    match response.parse(window) {
        Ok(httparse::Status::Complete(len)) => Tokenized::Complete(RawHead {
            len,
            minor_version: response.version.unwrap(),
            code: response.code.unwrap(),
            headers: response.headers.iter().map(|h| RawHeader {
                name: h.name.as_bytes().to_vec(),
                value: h.value.to_vec(),
            }).collect(),
        }),
        Ok(httparse::Status::Partial) => Tokenized::Partial,
        Err(e) => Tokenized::Failed(e),
    }
}

} // verus!
