//! Properties of the parser that hold for every input.

use crate::decoder::{chunked_decoded, decoded, hex_value, share, ChunkedState, Decoded, Decoder};
use crate::error::{HttpResponseParserError, ParseError, PayloadError};
use crate::headers::{content_length_name, lowered, valid_header_name, HeaderEntries};
use crate::message::{
    chosen_decoder, consumed_by, entries_of, framed, message_of, valid_line, MAX_HEADERS,
};
use crate::parser::{
    attempted, attempts, decoder_after, parse_model, payload_model, ParseActionModel, ParseEvent,
    PayloadActionModel, PayloadEvent,
};
use crate::response::valid_status;
use crate::text::{decimal_value, parsed_u64};
use crate::tokenizer::{tokenized, HeadModel, HeaderLine, TokenizedModel};
use crate::transport::{Async, ReadOutcome};
use vstd::prelude::*;

verus! {

/// Parsing finds the head at the front of `bytes` incomplete so far.
pub open spec fn head_incomplete(bytes: Seq<u8>) -> bool {
    message_of(bytes) matches Ok(Async::NotReady)
}

/// The pieces of a stream put together, first piece first.
pub open spec fn joined(pieces: Seq<Seq<u8>>) -> Seq<u8>
    decreases pieces.len(),
{
    if pieces.len() == 0 {
        Seq::empty()
    } else {
        pieces[0] + joined(pieces.skip(1))
    }
}

/// Every piece holds at least one byte and fits in memory.
pub open spec fn all_pieces_hold_data(pieces: Seq<Seq<u8>>) -> bool {
    forall|i: int| 0 <= i < pieces.len() ==> 0 < (#[trigger] pieces[i]).len() <= usize::MAX
}

/// The read that brings a piece.
pub open spec fn read_of(piece: Seq<u8>) -> ReadOutcome {
    ReadOutcome::Ready(piece.len() as usize)
}

/// The values of the lines whose lower-cased name is `name`, in the order of
/// the lines.
pub open spec fn values_named(lines: Seq<HeaderLine>, name: Seq<u8>) -> Seq<Seq<u8>>
    decreases lines.len(),
{
    if lines.len() == 0 {
        Seq::empty()
    } else if lowered(lines.last().0) == name {
        values_named(lines.drop_last(), name).push(lines.last().1)
    } else {
        values_named(lines.drop_last(), name)
    }
}

/// Lines that share a name, whatever its letter case, are all kept under that
/// one name, in the order in which they were received; a name that no line
/// carries has no entry.
pub proof fn lemma_headers_keep_every_value_in_order(lines: Seq<HeaderLine>, name: Seq<u8>)
    ensures
        entries_of(lines).dom().contains(name) <==> values_named(lines, name).len() > 0,
        entries_of(lines).dom().contains(name) ==> entries_of(lines)[name] == values_named(
            lines,
            name,
        ),
    decreases lines.len(),
{
    if lines.len() > 0 {
        lemma_headers_keep_every_value_in_order(lines.drop_last(), name);
    }
}

/// The value of every line is found, byte for byte, among the values stored
/// under the line's lower-cased name.
pub proof fn lemma_header_value_is_kept(lines: Seq<HeaderLine>, i: int)
    requires
        0 <= i < lines.len(),
    ensures
        entries_of(lines).dom().contains(lowered(lines[i].0)),
        entries_of(lines)[lowered(lines[i].0)].contains(lines[i].1),
    decreases lines.len(),
{
    let name = lowered(lines[i].0);
    let before = entries_of(lines.drop_last());
    if i == lines.len() - 1 {
        let stored = entries_of(lines)[name];
        assert(stored[stored.len() - 1] == lines[i].1);
    } else {
        lemma_header_value_is_kept(lines.drop_last(), i);
        assert(lines.drop_last()[i] == lines[i]);
        let kept = before[name];
        let j = choose|j: int| 0 <= j < kept.len() && kept[j] == lines[i].1;
        let stored = entries_of(lines)[name];
        assert(stored[j] == lines[i].1);
    }
}

/// A head with a header name that is no valid token is refused as a header
/// error, provided its status code and its number of lines are in order.
pub proof fn lemma_invalid_header_name_is_refused(head: HeadModel, i: int)
    requires
        valid_status(head.code),
        head.headers.len() <= MAX_HEADERS,
        0 <= i < head.headers.len(),
        !valid_header_name(head.headers[i].0),
    ensures
        framed(head) matches Err(ParseError::Header),
{
    assert(!valid_line(head.headers[i]));
}

/// A head that the tokenizer refuses for a bad header name fails with a
/// header error.
pub proof fn lemma_bad_name_token_is_a_header_error(bytes: Seq<u8>)
    requires
        tokenized(bytes, MAX_HEADERS) == TokenizedModel::Failed(httparse::Error::HeaderName),
    ensures
        message_of(bytes) matches Err(ParseError::Header),
{
}

/// Once the buffer has reached its limit, a parse that finds the head still
/// incomplete fails as too large, whatever the event, and never answers
/// `NotReady` or asks for another read.
pub proof fn lemma_full_buffer_is_too_large(event: ParseEvent, bytes: Seq<u8>)
    requires
        attempts(event, bytes),
        head_incomplete(bytes),
    ensures
        parse_model(event, bytes, true) == ParseActionModel::Return(
            Err(HttpResponseParserError::Error(ParseError::TooLarge)),
        ),
{
}

/// A read of zero bytes is a disconnect while the head is awaited and an
/// incomplete body while a body is awaited; the two differ.
pub proof fn lemma_closed_connection_is_told_apart(
    bytes: Seq<u8>,
    at_limit: bool,
    decoder: Decoder,
)
    ensures
        parse_model(ParseEvent::Filled(ReadOutcome::Ready(0)), bytes, at_limit)
            == ParseActionModel::Return(Err(HttpResponseParserError::Disconnect)),
        parse_model(ParseEvent::Refilled(ReadOutcome::Ready(0)), bytes, at_limit)
            == ParseActionModel::Return(Err(HttpResponseParserError::Disconnect)),
        payload_model(Some(decoder), PayloadEvent::Read(ReadOutcome::Ready(0)), bytes).action
            == PayloadActionModel::Return(Err(PayloadError::Incomplete)),
        payload_model(Some(decoder), PayloadEvent::Read(ReadOutcome::Ready(0)), bytes).rest
            == bytes,
{
}

/// Without a decoder the payload phase reports the end of the body on every
/// event, and touches neither the buffer nor the parser.
pub proof fn lemma_no_body_is_done_at_once(event: PayloadEvent, bytes: Seq<u8>)
    ensures
        payload_model(None, event, bytes).action == PayloadActionModel::Return(
            Ok(Async::Ready(None)),
        ),
        payload_model(None, event, bytes).rest == bytes,
        payload_model(None, event, bytes).decoder is None,
{
}

/// `0`
pub open spec fn zero_text() -> Seq<u8> {
    seq![48u8]
}

/// Headers whose first `Content-Length` is `0` select a body of zero bytes,
/// and the decoder for it reports the end of the body at the first call,
/// taking nothing from the buffer.
pub proof fn lemma_empty_body_ends_at_once(entries: HeaderEntries, bytes: Seq<u8>, n: usize)
    requires
        entries.dom().contains(content_length_name()),
        entries[content_length_name()][0] == zero_text(),
        n > 0,
    ensures
        chosen_decoder(entries) matches Ok(Some(Decoder::FixedLength(0))),
        decoded(Decoder::FixedLength(0), bytes).result matches Ok(Async::Ready(None)),
        decoded(Decoder::FixedLength(0), bytes).decoder == Decoder::FixedLength(0),
        decoded(Decoder::FixedLength(0), bytes).rest == bytes,
        payload_model(
            Some(Decoder::FixedLength(0)),
            PayloadEvent::Read(ReadOutcome::Ready(n)),
            bytes,
        ).action == PayloadActionModel::Return(Ok(Async::Ready(None))),
{
    let text = zero_text();
    assert(text.drop_last() =~= Seq::<u8>::empty());
    assert(decimal_value(text.drop_last()) == 0);
    assert(decimal_value(text) == 0);
    assert(parsed_u64(text) == Some(0u64));
}

/// The state of a body being pumped: the decoder, the bytes left in the
/// buffer, and the body bytes handed out so far.
pub struct Pumped {
    pub decoder: Option<Decoder>,
    pub rest: Seq<u8>,
    pub body: Seq<u8>,
}

/// The payload phase run over a stream that arrives in pieces: each piece is
/// appended to the buffer by one read, after which the payload phase is called
/// once with the outcome of that read.
pub open spec fn pumped(decoder: Option<Decoder>, buffer: Seq<u8>, pieces: Seq<Seq<u8>>) -> Pumped
    decreases pieces.len(),
{
    if pieces.len() == 0 {
        Pumped { decoder, rest: buffer, body: Seq::empty() }
    } else {
        let step = payload_model(decoder, PayloadEvent::Read(read_of(pieces[0])), buffer + pieces[0]);
        let after = pumped(step.decoder, step.rest, pieces.skip(1));
        match step.action {
            PayloadActionModel::Return(Ok(Async::Ready(Some(chunk)))) => Pumped {
                decoder: after.decoder,
                rest: after.rest,
                body: chunk + after.body,
            },
            _ => after,
        }
    }
}

/// A body of `n` bytes comes out as exactly the first `n` bytes of the stream,
/// however the stream is cut into pieces. With `stream` the buffered bytes
/// followed by all the pieces: the body handed out is the first `n` bytes of
/// the stream, or all of it while fewer have arrived; the buffer keeps what
/// follows them; and the decoder counts what is still to come. Buffered bytes
/// are handed out only after a read, so the stream must have a piece unless
/// nothing is buffered or nothing is expected.
pub proof fn lemma_fixed_length_ignores_fragmentation(n: u64, buffer: Seq<u8>, pieces: Seq<Seq<u8>>)
    requires
        all_pieces_hold_data(pieces),
        pieces.len() > 0 || buffer.len() == 0 || n == 0,
    ensures
        ({
            let stream = buffer + joined(pieces);
            let taken = share(n, stream.len());
            let end = pumped(Some(Decoder::FixedLength(n)), buffer, pieces);
            &&& end.body == stream.take(taken as int)
            &&& end.rest == stream.skip(taken as int)
            &&& end.decoder == Some(Decoder::FixedLength((n - taken) as u64))
        }),
    decreases pieces.len(),
{
    let stream = buffer + joined(pieces);
    let taken = share(n, stream.len());
    let end = pumped(Some(Decoder::FixedLength(n)), buffer, pieces);
    if pieces.len() == 0 {
        assert(stream =~= buffer);
        assert(taken == 0);
        assert(end.body =~= stream.take(0));
        assert(end.rest =~= stream.skip(0));
    } else {
        let first = pieces[0];
        let filled = buffer + first;
        let others = pieces.skip(1);
        assert(first.len() > 0);
        assert(read_of(first).has_data());
        assert(stream =~= filled + joined(others));
        assert(all_pieces_hold_data(others)) by {
            assert forall|i: int| 0 <= i < others.len() implies 0 < (#[trigger] others[i]).len()
                <= usize::MAX by {
                assert(others[i] == pieces[i + 1]);
            }
        }
        if n == 0 {
            lemma_fixed_length_ignores_fragmentation(0, filled, others);
        } else {
            let k = share(n, filled.len());
            let left = (n - k) as u64;
            let later = filled.skip(k as int) + joined(others);
            let more = share(left, later.len());
            lemma_fixed_length_ignores_fragmentation(left, filled.skip(k as int), others);
            assert(taken == k + more);
            assert(stream.take(taken as int) =~= filled.take(k as int) + later.take(more as int));
            assert(stream.skip(taken as int) =~= later.skip(more as int));
        }
    }
}

/// A body of `n` bytes that has arrived in full, in whatever pieces, comes out
/// as those `n` bytes; after that the decoder reports the end of the body and
/// leaves the buffer alone.
pub proof fn lemma_fixed_length_yields_the_body_then_ends(
    body: Seq<u8>,
    pieces: Seq<Seq<u8>>,
    later: Seq<u8>,
)
    requires
        all_pieces_hold_data(pieces),
        joined(pieces) == body,
        body.len() <= u64::MAX,
    ensures
        ({
            let end = pumped(Some(Decoder::FixedLength(body.len() as u64)), Seq::empty(), pieces);
            &&& end.body == body
            &&& end.rest == Seq::<u8>::empty()
            &&& end.decoder == Some(Decoder::FixedLength(0))
            &&& decoded(Decoder::FixedLength(0), later).result matches Ok(Async::Ready(None))
            &&& decoded(Decoder::FixedLength(0), later).rest == later
        }),
{
    let n = body.len() as u64;
    lemma_fixed_length_ignores_fragmentation(n, Seq::empty(), pieces);
    let stream = Seq::<u8>::empty() + joined(pieces);
    assert(stream =~= body);
    assert(stream.take(body.len() as int) =~= body);
    assert(stream.skip(body.len() as int) =~= Seq::<u8>::empty());
}

/// The outcome of the header phase: the last action, the decoder that the
/// parser holds, and the bytes left in the buffer.
pub struct Delivered {
    pub action: ParseActionModel,
    pub decoder: Option<Decoder>,
    pub rest: Seq<u8>,
}

/// One call of the header phase on a buffer below its limit.
pub open spec fn parse_step(decoder: Option<Decoder>, event: ParseEvent, bytes: Seq<u8>) -> Delivered {
    if attempts(event, bytes) {
        Delivered {
            action: parse_model(event, bytes, false),
            decoder: decoder_after(decoder, message_of(bytes)),
            rest: bytes.skip(consumed_by(bytes) as int),
        }
    } else {
        Delivered { action: parse_model(event, bytes, false), decoder, rest: bytes }
    }
}

/// The header phase run to its end over a stream that arrives in pieces, on a
/// buffer that stays below its limit. Each read that the parser asks for brings
/// the next piece; once the pieces have run out a read would block. A caller
/// that is told `NotReady` while pieces are still to come starts again.
pub open spec fn delivered(
    decoder: Option<Decoder>,
    bytes: Seq<u8>,
    event: ParseEvent,
    pieces: Seq<Seq<u8>>,
) -> Delivered
    decreases pieces.len(), (if event is Start { 0nat } else { 1nat }),
{
    let step = parse_step(decoder, event, bytes);
    if pieces.len() == 0 {
        match step.action {
            ParseActionModel::Fill => parse_step(
                step.decoder,
                ParseEvent::Filled(ReadOutcome::NotReady),
                step.rest,
            ),
            ParseActionModel::Refill => parse_step(
                step.decoder,
                ParseEvent::Refilled(ReadOutcome::NotReady),
                step.rest,
            ),
            ParseActionModel::Return(_) => step,
        }
    } else {
        match step.action {
            ParseActionModel::Fill => delivered(
                step.decoder,
                step.rest + pieces[0],
                ParseEvent::Filled(read_of(pieces[0])),
                pieces.skip(1),
            ),
            ParseActionModel::Refill => delivered(
                step.decoder,
                step.rest + pieces[0],
                ParseEvent::Refilled(read_of(pieces[0])),
                pieces.skip(1),
            ),
            ParseActionModel::Return(Ok(Async::NotReady)) => if event is Start {
                step
            } else {
                delivered(step.decoder, step.rest, ParseEvent::Start, pieces)
            },
            ParseActionModel::Return(_) => step,
        }
    }
}

/// The first `k` pieces of a stream, after the bytes already buffered.
pub open spec fn arrived(bytes: Seq<u8>, pieces: Seq<Seq<u8>>, k: int) -> Seq<u8> {
    bytes + joined(pieces.take(k))
}

/// Until the last piece has arrived, the head at the front of the buffer is
/// incomplete.
pub open spec fn incomplete_until_last(bytes: Seq<u8>, pieces: Seq<Seq<u8>>) -> bool {
    forall|k: int|
        0 <= k < pieces.len() && (#[trigger] arrived(bytes, pieces, k)).len() > 0
            ==> head_incomplete(arrived(bytes, pieces, k))
}

/// What the header phase ends with once the whole of `stream` is buffered and
/// the head at its front is no longer incomplete.
pub open spec fn settled(decoder: Option<Decoder>, stream: Seq<u8>) -> Delivered {
    Delivered {
        action: attempted(message_of(stream), false, true),
        decoder: decoder_after(decoder, message_of(stream)),
        rest: stream.skip(consumed_by(stream) as int),
    }
}

proof fn lemma_joined_take_next(pieces: Seq<Seq<u8>>, k: int)
    requires
        0 <= k < pieces.len(),
    ensures
        joined(pieces.take(k + 1)) == pieces[0] + joined(pieces.skip(1).take(k)),
{
    assert(pieces.take(k + 1)[0] == pieces[0]);
    assert(pieces.take(k + 1).skip(1) =~= pieces.skip(1).take(k));
}

proof fn lemma_incomplete_head_is_left_alone(bytes: Seq<u8>)
    requires
        head_incomplete(bytes),
    ensures
        consumed_by(bytes) == 0,
        bytes.skip(consumed_by(bytes) as int) == bytes,
{
    assert(bytes.skip(0) =~= bytes);
}

/// How a stream is cut into pieces does not change what the header phase ends
/// with. Let the stream be the buffered bytes followed by the pieces, let the
/// head stay incomplete until the last piece has arrived, and let it be settled
/// then (complete, or refused). Then the header phase ends with what one parse
/// of the whole stream gives: the same response or failure, the same decoder,
/// and the same bytes left in the buffer.
pub proof fn lemma_delivery_ignores_piece_boundaries(
    decoder: Option<Decoder>,
    bytes: Seq<u8>,
    event: ParseEvent,
    pieces: Seq<Seq<u8>>,
)
    requires
        all_pieces_hold_data(pieces),
        incomplete_until_last(bytes, pieces),
        !head_incomplete(bytes + joined(pieces)),
        (bytes + joined(pieces)).len() > 0,
        match event {
            ParseEvent::Start => true,
            ParseEvent::Filled(outcome) => outcome.has_data() && bytes.len() > 0,
            ParseEvent::Refilled(outcome) => outcome.has_data() && bytes.len() > 0,
        },
    ensures
        delivered(decoder, bytes, event, pieces) == settled(decoder, bytes + joined(pieces)),
    decreases pieces.len(), (if event is Start { 0nat } else { 1nat }),
{
    let stream = bytes + joined(pieces);
    let step = parse_step(decoder, event, bytes);
    if pieces.len() == 0 {
        assert(stream =~= bytes);
    } else {
        let first = pieces[0];
        let others = pieces.skip(1);
        assert(first.len() > 0);
        assert(read_of(first).has_data());
        assert(stream =~= (bytes + first) + joined(others));
        if bytes.len() > 0 {
            assert(pieces.take(0) =~= Seq::<Seq<u8>>::empty());
            assert(arrived(bytes, pieces, 0) =~= bytes);
            assert(head_incomplete(bytes));
            lemma_incomplete_head_is_left_alone(bytes);
        }
        assert(all_pieces_hold_data(others)) by {
            assert forall|i: int| 0 <= i < others.len() implies 0 < (#[trigger] others[i]).len()
                <= usize::MAX by {
                assert(others[i] == pieces[i + 1]);
            }
        }
        assert(incomplete_until_last(bytes + first, others)) by {
            assert forall|k: int|
                0 <= k < others.len() && (#[trigger] arrived(bytes + first, others, k)).len()
                    > 0 implies head_incomplete(arrived(bytes + first, others, k)) by {
                lemma_joined_take_next(pieces, k);
                assert(arrived(bytes + first, others, k) =~= arrived(bytes, pieces, k + 1));
            }
        }
        match step.action {
            ParseActionModel::Fill => {
                lemma_delivery_ignores_piece_boundaries(
                    step.decoder,
                    bytes + first,
                    ParseEvent::Filled(read_of(first)),
                    others,
                );
            },
            ParseActionModel::Refill => {
                lemma_delivery_ignores_piece_boundaries(
                    step.decoder,
                    bytes + first,
                    ParseEvent::Refilled(read_of(first)),
                    others,
                );
            },
            ParseActionModel::Return(Ok(Async::NotReady)) => {
                if !(event is Start) {
                    lemma_delivery_ignores_piece_boundaries(
                        step.decoder,
                        bytes,
                        ParseEvent::Start,
                        pieces,
                    );
                }
            },
            ParseActionModel::Return(_) => {},
        }
    }
}

/// A stream delivered in pieces, to a parser that starts on an empty buffer,
/// ends the header phase exactly as the same stream delivered in one piece.
pub proof fn lemma_pieces_match_whole_stream(decoder: Option<Decoder>, pieces: Seq<Seq<u8>>)
    requires
        all_pieces_hold_data(pieces),
        pieces.len() > 0,
        joined(pieces).len() <= usize::MAX,
        incomplete_until_last(Seq::empty(), pieces),
        !head_incomplete(joined(pieces)),
    ensures
        delivered(decoder, Seq::empty(), ParseEvent::Start, pieces) == delivered(
            decoder,
            Seq::empty(),
            ParseEvent::Start,
            seq![joined(pieces)],
        ),
{
    let empty = Seq::<u8>::empty();
    let stream = joined(pieces);
    let whole = seq![stream];
    assert(empty + stream =~= stream);
    assert(pieces[0].len() > 0);
    assert(stream.len() > 0);
    assert(joined(whole.skip(1)) =~= Seq::<u8>::empty());
    assert(joined(whole) =~= stream);
    assert(incomplete_until_last(empty, whole)) by {
        assert forall|k: int|
            0 <= k < whole.len() && (#[trigger] arrived(empty, whole, k)).len()
                > 0 implies head_incomplete(arrived(empty, whole, k)) by {
            assert(whole.take(0) =~= Seq::<Seq<u8>>::empty());
            assert(arrived(empty, whole, 0) =~= empty);
        }
    }
    lemma_delivery_ignores_piece_boundaries(decoder, empty, ParseEvent::Start, pieces);
    lemma_delivery_ignores_piece_boundaries(decoder, empty, ParseEvent::Start, whole);
}

/// Every byte is a hexadecimal digit.
pub open spec fn all_hex(digits: Seq<u8>) -> bool {
    forall|i: int| 0 <= i < digits.len() ==> hex_value(#[trigger] digits[i]) is Some
}

/// The number that hexadecimal digits write when they follow the number
/// `before`.
pub open spec fn hex_number(before: nat, digits: Seq<u8>) -> nat
    decreases digits.len(),
{
    if digits.len() == 0 {
        before
    } else {
        match hex_value(digits[0]) {
            Some(digit) => hex_number(before * 16 + digit as nat, digits.skip(1)),
            None => before,
        }
    }
}

/// A carriage return and a line feed.
pub open spec fn line_end() -> Seq<u8> {
    seq![13u8, 10u8]
}

proof fn lemma_hex_number_grows(before: nat, digits: Seq<u8>)
    ensures
        hex_number(before, digits) >= before,
    decreases digits.len(),
{
    if digits.len() > 0 {
        match hex_value(digits[0]) {
            Some(digit) => lemma_hex_number_grows(before * 16 + digit as nat, digits.skip(1)),
            None => {},
        }
    }
}

/// Reading the digits of a chunk size brings the decoder to the number that
/// they write, provided that number fits in 64 bits.
pub proof fn lemma_chunk_size_is_read(before: u64, digits: Seq<u8>, tail: Seq<u8>)
    requires
        all_hex(digits),
        hex_number(before as nat, digits) <= u64::MAX,
    ensures
        chunked_decoded(ChunkedState::Size, before, digits + tail) == chunked_decoded(
            ChunkedState::Size,
            hex_number(before as nat, digits) as u64,
            tail,
        ),
    decreases digits.len(),
{
    if digits.len() == 0 {
        assert(digits + tail =~= tail);
    } else {
        let digit = hex_value(digits[0])->Some_0;
        let next = before as nat * 16 + digit as nat;
        lemma_hex_number_grows(next, digits.skip(1));
        assert((digits + tail)[0] == digits[0]);
        assert((digits + tail).skip(1) =~= digits.skip(1) + tail);
        assert(all_hex(digits.skip(1))) by {
            assert forall|i: int| 0 <= i < digits.skip(1).len() implies hex_value(
                #[trigger] digits.skip(1)[i],
            ) is Some by {
                assert(digits.skip(1)[i] == digits[i + 1]);
            }
        }
        lemma_chunk_size_is_read(next as u64, digits.skip(1), tail);
    }
}

/// A chunk is decoded to its data. The chunk is written as the hexadecimal
/// size of the data, a line end, and the data; the decoder hands the data out,
/// keeps what follows in the buffer, and then expects the line end that closes
/// the chunk.
pub proof fn lemma_chunk_is_decoded(digits: Seq<u8>, data: Seq<u8>, tail: Seq<u8>)
    requires
        all_hex(digits),
        hex_number(0, digits) <= u64::MAX,
        data.len() == hex_number(0, digits),
        data.len() > 0,
    ensures
        chunked_decoded(ChunkedState::Size, 0, digits + line_end() + data + tail) == (Decoded {
            decoder: Decoder::Chunked(ChunkedState::BodyCr, 0),
            rest: tail,
            result: Ok(Async::Ready(Some(data))),
        }),
{
    let n = hex_number(0, digits) as u64;
    let after_size = line_end() + data + tail;
    let after_cr = after_size.skip(1);
    let body = after_cr.skip(1);
    assert(digits + line_end() + data + tail =~= digits + after_size);
    lemma_chunk_size_is_read(0, digits, after_size);
    assert(after_size[0] == 13);
    assert(after_cr[0] == 10);
    assert(body =~= data + tail);
    assert(body.take(n as int) =~= data);
    assert(body.skip(n as int) =~= tail);
    assert(chunked_decoded(ChunkedState::Size, n, after_size) == chunked_decoded(
        ChunkedState::SizeLf,
        n,
        after_cr,
    ));
    assert(chunked_decoded(ChunkedState::SizeLf, n, after_cr) == chunked_decoded(
        ChunkedState::Body,
        n,
        body,
    ));
}

/// After the data of a chunk, the line end that closes it brings the decoder
/// back to the start of a chunk size.
pub proof fn lemma_chunk_is_closed(tail: Seq<u8>)
    ensures
        chunked_decoded(ChunkedState::BodyCr, 0, line_end() + tail) == chunked_decoded(
            ChunkedState::Size,
            0,
            tail,
        ),
{
    let bytes = line_end() + tail;
    assert(bytes[0] == 13);
    assert(bytes.skip(1)[0] == 10);
    assert(bytes.skip(1).skip(1) =~= tail);
    assert(chunked_decoded(ChunkedState::BodyCr, 0, bytes) == chunked_decoded(
        ChunkedState::BodyLf,
        0,
        bytes.skip(1),
    ));
}

/// A chunk of size zero, followed by an empty line, ends the body; what
/// follows stays in the buffer.
pub proof fn lemma_last_chunk_ends_the_body(digits: Seq<u8>, tail: Seq<u8>)
    requires
        all_hex(digits),
        digits.len() > 0,
        hex_number(0, digits) == 0,
    ensures
        chunked_decoded(ChunkedState::Size, 0, digits + line_end() + line_end() + tail) == (Decoded {
            decoder: Decoder::Chunked(ChunkedState::End, 0),
            rest: tail,
            result: Ok(Async::Ready(None)),
        }),
{
    let after_size = line_end() + line_end() + tail;
    let b1 = after_size.skip(1);
    let b2 = b1.skip(1);
    let b3 = b2.skip(1);
    let b4 = b3.skip(1);
    assert(digits + line_end() + line_end() + tail =~= digits + after_size);
    lemma_chunk_size_is_read(0, digits, after_size);
    assert(after_size[0] == 13 && b1[0] == 10 && b2[0] == 13 && b3[0] == 10);
    assert(b4 =~= tail);
    assert(chunked_decoded(ChunkedState::Size, 0, after_size) == chunked_decoded(
        ChunkedState::SizeLf,
        0,
        b1,
    ));
    assert(chunked_decoded(ChunkedState::SizeLf, 0, b1) == chunked_decoded(
        ChunkedState::EndCr,
        0,
        b2,
    ));
    assert(chunked_decoded(ChunkedState::EndCr, 0, b2) == chunked_decoded(
        ChunkedState::EndLf,
        0,
        b3,
    ));
    assert(chunked_decoded(ChunkedState::EndLf, 0, b3) == chunked_decoded(
        ChunkedState::End,
        0,
        b4,
    ));
}

} // verus!
