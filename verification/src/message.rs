//! From a tokenized head to a response and its body decoder.

use crate::buffer::{buffered, window};
use crate::decoder::{ChunkedState, Decoder};
use crate::error::{parse_error_of, ParseError};
use crate::headers::{
    append_header, appended, content_length_key, content_length_name, get_header, has_header,
    header_count, header_entries, header_name_from_bytes, header_value_as_bytes,
    header_value_from_bytes, lowered, new_header_map, no_entries, transfer_encoding_key,
    transfer_encoding_name, upgrade_key, upgrade_name, valid_header_name, valid_header_value,
    HeaderEntries, MAX_HEADER_NAME_LEN,
};
use crate::response::{valid_status, version_of, ClientResponse, ResponseModel, Version};
use crate::text::{
    has_chunked_token, is_visible_text, mentions_chunked, parse_u64, parsed_u64, visible_text,
};
use crate::tokenizer::{
    run_tokenizer, tokenized, HeadModel, HeaderLine, RawHead, Tokenized, TokenizedModel,
};
use crate::transport::Async;
use bytes::BytesMut;
use http::header::{HeaderMap, HeaderValue};
use vstd::prelude::*;

verus! {

/// The most header lines a response may have.
pub const MAX_HEADERS: usize = 96;

/// A header line whose name and value are both acceptable.
pub open spec fn valid_line(line: HeaderLine) -> bool {
    valid_header_name(line.0) && valid_header_value(line.1)
}

/// Every header line is acceptable.
pub open spec fn valid_lines(lines: Seq<HeaderLine>) -> bool {
    forall|i: int| 0 <= i < lines.len() ==> valid_line(#[trigger] lines[i])
}

/// The header map that holds `lines`: each value is appended under its
/// lower-cased name, in the order of the lines.
pub open spec fn entries_of(lines: Seq<HeaderLine>) -> HeaderEntries
    decreases lines.len(),
{
    if lines.len() == 0 {
        no_entries()
    } else {
        appended(entries_of(lines.drop_last()), lowered(lines.last().0), lines.last().1)
    }
}

/// The body decoder that a set of headers calls for. The first rule that
/// applies wins: a `Content-Length`, whose first value must be a decimal
/// number; a `Transfer-Encoding` whose first value, which must be text,
/// mentions `chunked`; an `Upgrade`; otherwise there is no body.
pub open spec fn chosen_decoder(entries: HeaderEntries) -> Result<Option<Decoder>, ParseError> {
    if entries.dom().contains(content_length_name()) {
        match parsed_u64(entries[content_length_name()][0]) {
            Some(n) => Ok(Some(Decoder::FixedLength(n))),
            None => Err(ParseError::Header),
        }
    } else if entries.dom().contains(transfer_encoding_name()) && !visible_text(
        entries[transfer_encoding_name()][0],
    ) {
        Err(ParseError::Header)
    } else if entries.dom().contains(transfer_encoding_name()) && mentions_chunked(
        entries[transfer_encoding_name()][0],
    ) {
        Ok(Some(Decoder::Chunked(ChunkedState::Size, 0)))
    } else if entries.dom().contains(upgrade_name()) {
        Ok(Some(Decoder::ReadUntilClose))
    } else {
        Ok(None)
    }
}

/// A message: the response head and the decoder for its body, if it has one.
pub type Message = (ClientResponse, Option<Decoder>);

/// A message as plain values.
pub type MessageModel = (ResponseModel, Option<Decoder>);

/// The message that a tokenized head stands for, or why it is refused: an
/// invalid status code, too many header lines, an unacceptable header line, or
/// headers that frame the body wrongly.
pub open spec fn framed(head: HeadModel) -> Result<MessageModel, ParseError> {
    if !valid_status(head.code) {
        Err(ParseError::Status)
    } else if head.headers.len() > MAX_HEADERS {
        Err(ParseError::TooLarge)
    } else if !valid_lines(head.headers) {
        Err(ParseError::Header)
    } else {
        match chosen_decoder(entries_of(head.headers)) {
            Ok(decoder) => Ok(
                (
                    ResponseModel {
                        status: head.code,
                        version: version_of(head.minor_version),
                        headers: entries_of(head.headers),
                    },
                    decoder,
                ),
            ),
            Err(e) => Err(e),
        }
    }
}

/// What parsing makes of a window of buffered bytes.
pub open spec fn message_of(bytes: Seq<u8>) -> Result<Async<MessageModel>, ParseError> {
    match tokenized(bytes, MAX_HEADERS) {
        TokenizedModel::Failed(e) => Err(parse_error_of(e)),
        TokenizedModel::Partial => Ok(Async::NotReady),
        TokenizedModel::Complete(head) => match framed(head) {
            Ok(message) => Ok(Async::Ready(message)),
            Err(e) => Err(e),
        },
    }
}

/// How many bytes parsing takes off the front of a window: the whole head once
/// it is complete and its status code is valid, nothing before that.
pub open spec fn consumed_by(bytes: Seq<u8>) -> nat {
    match tokenized(bytes, MAX_HEADERS) {
        TokenizedModel::Complete(head) => if valid_status(head.code) {
            head.len
        } else {
            0
        },
        _ => 0,
    }
}

/// A parse result as plain values.
pub open spec fn message_view(r: Result<Async<Message>, ParseError>) -> Result<
    Async<MessageModel>,
    ParseError,
> {
    match r {
        Ok(Async::Ready((response, decoder))) => Ok(Async::Ready((response@, decoder))),
        Ok(Async::NotReady) => Ok(Async::NotReady),
        Err(e) => Err(e),
    }
}

/// A framing result as plain values.
pub open spec fn framed_view(r: Result<Message, ParseError>) -> Result<MessageModel, ParseError> {
    match r {
        Ok((response, decoder)) => Ok((response@, decoder)),
        Err(e) => Err(e),
    }
}

/// Chooses the body decoder that the headers call for.
pub fn select_decoder(headers: &HeaderMap<HeaderValue>) -> (r: Result<Option<Decoder>, ParseError>)
    ensures
        r == chosen_decoder(header_entries(*headers)),
{
    let length_key = content_length_key();
    if let Some(value) = get_header(headers, &length_key) {
        return match parse_u64(header_value_as_bytes(value)) {
            Some(n) => Ok(Some(Decoder::length(n))),
            None => Err(ParseError::Header),
        };
    }
    let encoding_key = transfer_encoding_key();
    if let Some(value) = get_header(headers, &encoding_key) {
        let text = header_value_as_bytes(value);
        if !is_visible_text(text) {
            return Err(ParseError::Header);
        }
        if has_chunked_token(text) {
            return Ok(Some(Decoder::chunked()));
        }
    }
    let upgrade = upgrade_key();
    if has_header(headers, &upgrade) {
        Ok(Some(Decoder::eof()))
    } else {
        Ok(None)
    }
}

/// Whether a status code may stand in a response.
pub fn is_valid_status(code: u16) -> (r: bool)
    ensures
        r == valid_status(code),
{
    100 <= code && code < 600
}

/// Builds the response and chooses its body decoder from a tokenized head.
pub fn build_message(head: &RawHead) -> (r: Result<Message, ParseError>)
    ensures
        framed_view(r) == framed(head@),
{
    if !is_valid_status(head.code) {
        return Err(ParseError::Status);
    }
    let n = head.headers.len();
    if n > MAX_HEADERS {
        return Err(ParseError::TooLarge);
    }
    let ghost lines = head@.headers;
    let mut headers = new_header_map();
    let mut i: usize = 0;
    assert(lines.take(0) =~= Seq::<HeaderLine>::empty());
    while i < n
        invariant
            n == head.headers@.len(),
            n <= MAX_HEADERS,
            valid_status(head@.code),
            lines == head@.headers,
            lines.len() == n,
            i <= n,
            valid_lines(lines.take(i as int)),
            header_entries(headers) == entries_of(lines.take(i as int)),
            header_count(headers) == i,
        decreases n - i,
    {
        let line = &head.headers[i];
        assert(lines[i as int] == (line.name@, line.value@));
        if line.name.len() >= MAX_HEADER_NAME_LEN {
            assert(!valid_line(lines[i as int]));
            return Err(ParseError::Header);
        }
        let name = match header_name_from_bytes(line.name.as_slice()) {
            Some(name) => name,
            None => {
                assert(!valid_line(lines[i as int]));
                return Err(ParseError::Header);
            },
        };
        let value = match header_value_from_bytes(line.value.as_slice()) {
            Some(value) => value,
            None => {
                assert(!valid_line(lines[i as int]));
                return Err(ParseError::Header);
            },
        };
        append_header(&mut headers, name, value);
        proof {
            let next = lines.take(i + 1);
            assert(next.drop_last() =~= lines.take(i as int));
            assert(next.last() == lines[i as int]);
            assert forall|j: int| 0 <= j < next.len() implies valid_line(#[trigger] next[j]) by {
                if j < i {
                    assert(next[j] == lines.take(i as int)[j]);
                }
            }
        }
        i += 1;
    }
    assert(lines.take(n as int) == lines);
    match select_decoder(&headers) {
        Ok(decoder) => {
            let version = if head.minor_version == 1 {
                Version::Http11
            } else {
                Version::Http10
            };
            Ok((ClientResponse { status: head.code, version, headers }, decoder))
        },
        Err(e) => Err(e),
    }
}

/// Tries to parse one response head from the front of the buffer.
///
/// Answers `NotReady` while the head is incomplete and leaves the buffer as it
/// is. Once the head is complete and its status code is valid, the head is
/// taken off the buffer, whether or not the headers are then accepted.
pub fn parse_message(buf: &mut BytesMut) -> (r: Result<Async<Message>, ParseError>)
    ensures
        message_view(r) == message_of(buffered(*old(buf))),
        buffered(*final(buf)) == buffered(*old(buf)).skip(consumed_by(buffered(*old(buf))) as int),
{
    match run_tokenizer(window(buf), MAX_HEADERS) {
        Tokenized::Failed(e) => {
            assert(buffered(*buf).skip(0) =~= buffered(*buf));
            Err(ParseError::from_tokenizer(e))
        },
        Tokenized::Partial => {
            assert(buffered(*buf).skip(0) =~= buffered(*buf));
            Ok(Async::NotReady)
        },
        Tokenized::Complete(head) => {
            if is_valid_status(head.code) {
                let _ = buf.split_to(head.len);
            } else {
                assert(buffered(*buf).skip(0) =~= buffered(*buf));
            }
            match build_message(&head) {
                Ok(message) => Ok(Async::Ready(message)),
                Err(e) => Err(e),
            }
        },
    }
}

} // verus!
