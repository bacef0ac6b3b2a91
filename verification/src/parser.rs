//! The response parser: the header phase and the payload phase.
//!
//! Both entry points are transition functions. They take an event, which is
//! either the start of an attempt or the outcome of the read that the last
//! action asked for, and answer with the next action. The caller owns the
//! transport and the buffer: it performs each read that is asked for, appends
//! the bytes to the buffer, and hands the outcome back.

use crate::buffer::buffered;
use crate::decoder::{decoded, payload_view, Decoder, PayloadModel};
use crate::error::{HttpResponseParserError, ParseError, PayloadError};
use crate::message::{consumed_by, message_of, message_view, parse_message, Message, MessageModel};
use crate::response::{ClientResponse, ResponseModel};
use crate::transport::{Async, ReadOutcome};
use bytes::{Bytes, BytesMut};
use vstd::prelude::*;

verus! {

/// The buffer capacity from which on an incomplete head is refused.
pub const MAX_BUFFER_SIZE: usize = 131_072;

/// Parses one response at a time: first the head, then the body. Between the
/// two phases it keeps the decoder that the head called for.
#[derive(Debug)]
pub struct HttpResponseParser {
    decoder: Option<Decoder>,
}

/// What happened before a call of [`HttpResponseParser::parse`].
#[derive(Debug)]
pub enum ParseEvent {
    /// The caller starts, or retries, an attempt.
    Start,
    /// The read asked for by [`ParseAction::Fill`] has been made.
    Filled(ReadOutcome),
    /// The read asked for by [`ParseAction::Refill`] has been made.
    Refilled(ReadOutcome),
}

/// What [`HttpResponseParser::parse`] asks for next.
#[derive(Debug)]
pub enum ParseAction {
    /// The buffer is empty: read once and come back with `Filled`.
    Fill,
    /// The head is incomplete: read once and come back with `Refilled`.
    Refill,
    /// The attempt is over: hand this to the caller.
    Return(Result<Async<ClientResponse>, HttpResponseParserError>),
}

/// What happened before a call of [`HttpResponseParser::parse_payload`].
#[derive(Debug)]
pub enum PayloadEvent {
    /// The caller asks for the next chunk of the body.
    Start,
    /// The read asked for by [`PayloadAction::Read`] has been made.
    Read(ReadOutcome),
}

/// What [`HttpResponseParser::parse_payload`] asks for next.
#[derive(Debug)]
pub enum PayloadAction {
    /// A body is expected: read once and come back with `Read`.
    Read,
    /// The attempt is over: hand this to the caller.
    Return(Result<Async<Option<Bytes>>, PayloadError>),
}

/// A header-phase action as plain values.
pub enum ParseActionModel {
    Fill,
    Refill,
    Return(Result<Async<ResponseModel>, HttpResponseParserError>),
}

/// A payload-phase action as plain values.
pub enum PayloadActionModel {
    Read,
    Return(PayloadModel),
}

impl View for ParseAction {
    type V = ParseActionModel;

    open spec fn view(&self) -> ParseActionModel {
        match *self {
            ParseAction::Fill => ParseActionModel::Fill,
            ParseAction::Refill => ParseActionModel::Refill,
            ParseAction::Return(Ok(Async::Ready(response))) => ParseActionModel::Return(
                Ok(Async::Ready(response@)),
            ),
            ParseAction::Return(Ok(Async::NotReady)) => ParseActionModel::Return(Ok(Async::NotReady)),
            ParseAction::Return(Err(e)) => ParseActionModel::Return(Err(e)),
        }
    }
}

impl View for PayloadAction {
    type V = PayloadActionModel;

    open spec fn view(&self) -> PayloadActionModel {
        match *self {
            PayloadAction::Read => PayloadActionModel::Read,
            PayloadAction::Return(r) => PayloadActionModel::Return(payload_view(r)),
        }
    }
}

/// What follows one parse of the buffered bytes. A failure and a complete
/// response are returned. While the head is incomplete, a buffer at its limit
/// is refused as too large; below the limit another read is asked for if one
/// may be made in this attempt, and `NotReady` is returned if not.
pub open spec fn attempted(
    message: Result<Async<MessageModel>, ParseError>,
    at_limit: bool,
    may_read: bool,
) -> ParseActionModel {
    match message {
        Err(e) => ParseActionModel::Return(Err(HttpResponseParserError::Error(e))),
        Ok(Async::Ready((response, _))) => ParseActionModel::Return(Ok(Async::Ready(response))),
        Ok(Async::NotReady) => if at_limit {
            ParseActionModel::Return(Err(HttpResponseParserError::Error(ParseError::TooLarge)))
        } else if may_read {
            ParseActionModel::Refill
        } else {
            ParseActionModel::Return(Ok(Async::NotReady))
        },
    }
}

/// The decoder that the parser holds after one parse: the one that a complete
/// message called for, else the one it held before.
pub open spec fn decoder_after(
    before: Option<Decoder>,
    message: Result<Async<MessageModel>, ParseError>,
) -> Option<Decoder> {
    match message {
        Ok(Async::Ready((_, decoder))) => decoder,
        _ => before,
    }
}

/// Whether an event leads to a parse of the buffered bytes: a start on a
/// buffer that holds something, or a read that brought new bytes.
pub open spec fn attempts(event: ParseEvent, bytes: Seq<u8>) -> bool {
    match event {
        ParseEvent::Start => bytes.len() > 0,
        ParseEvent::Filled(outcome) => outcome.has_data(),
        ParseEvent::Refilled(outcome) => outcome.has_data(),
    }
}

/// What a read that brought no new bytes leads to in the header phase: a
/// closed connection is a disconnect, a read that would block is `NotReady`,
/// and a transport failure is passed on.
pub open spec fn unread(outcome: ReadOutcome) -> ParseActionModel {
    match outcome {
        ReadOutcome::Ready(_) => ParseActionModel::Return(Err(HttpResponseParserError::Disconnect)),
        ReadOutcome::NotReady => ParseActionModel::Return(Ok(Async::NotReady)),
        ReadOutcome::Failed(e) => ParseActionModel::Return(
            Err(HttpResponseParserError::Error(ParseError::Io(e))),
        ),
    }
}

/// The action of the header phase on an event, given the buffered bytes and
/// whether the buffer's capacity has reached the limit.
///
/// A start on an empty buffer asks for a read. After that first read the
/// bytes are parsed once, and an incomplete head is `NotReady`. A start on a
/// buffer that holds something parses at once and then asks for further reads
/// for as long as the head stays incomplete.
pub open spec fn parse_model(event: ParseEvent, bytes: Seq<u8>, at_limit: bool) -> ParseActionModel {
    match event {
        ParseEvent::Start => if bytes.len() == 0 {
            ParseActionModel::Fill
        } else {
            attempted(message_of(bytes), at_limit, true)
        },
        ParseEvent::Filled(outcome) => if outcome.has_data() {
            attempted(message_of(bytes), at_limit, false)
        } else {
            unread(outcome)
        },
        ParseEvent::Refilled(outcome) => if outcome.has_data() {
            attempted(message_of(bytes), at_limit, true)
        } else {
            unread(outcome)
        },
    }
}

/// One step of the payload phase: the action, the decoder that the parser
/// holds afterwards, and the bytes left in the buffer.
pub struct PayloadStep {
    pub action: PayloadActionModel,
    pub decoder: Option<Decoder>,
    pub rest: Seq<u8>,
}

/// The step of the payload phase on an event.
///
/// Without a decoder the body is over at once and nothing is touched. With a
/// decoder, a start asks for one read. A closed connection then means the body
/// is incomplete, a read that would block is `NotReady`, a transport failure is
/// passed on, and new bytes are handed to the decoder together with what the
/// buffer already held.
pub open spec fn payload_model(decoder: Option<Decoder>, event: PayloadEvent, bytes: Seq<u8>) -> PayloadStep {
    match decoder {
        None => PayloadStep {
            action: PayloadActionModel::Return(Ok(Async::Ready(None))),
            decoder,
            rest: bytes,
        },
        Some(active) => match event {
            PayloadEvent::Start => PayloadStep { action: PayloadActionModel::Read, decoder, rest: bytes },
            PayloadEvent::Read(ReadOutcome::Ready(n)) => if n == 0 {
                PayloadStep {
                    action: PayloadActionModel::Return(Err(PayloadError::Incomplete)),
                    decoder,
                    rest: bytes,
                }
            } else {
                PayloadStep {
                    action: PayloadActionModel::Return(decoded(active, bytes).result),
                    decoder: Some(decoded(active, bytes).decoder),
                    rest: decoded(active, bytes).rest,
                }
            },
            PayloadEvent::Read(ReadOutcome::NotReady) => PayloadStep {
                action: PayloadActionModel::Return(Ok(Async::NotReady)),
                decoder,
                rest: bytes,
            },
            PayloadEvent::Read(ReadOutcome::Failed(e)) => PayloadStep {
                action: PayloadActionModel::Return(Err(PayloadError::Io(e))),
                decoder,
                rest: bytes,
            },
        },
    }
}

impl View for HttpResponseParser {
    type V = Option<Decoder>;

    /// The active body decoder, if any.
    closed spec fn view(&self) -> Option<Decoder> {
        self.decoder
    }
}

impl Default for HttpResponseParser {
    fn default() -> (parser: Self)
        ensures
            parser@ is None,
    {
        HttpResponseParser { decoder: None }
    }
}

impl HttpResponseParser {
    /// A parser that awaits the head of a response.
    pub fn new() -> (parser: Self)
        ensures
            parser@ is None,
    {
        HttpResponseParser { decoder: None }
    }

    /// The active body decoder, if any.
    pub fn decoder(&self) -> (decoder: Option<Decoder>)
        ensures
            decoder == self@,
    {
        self.decoder
    }

    /// Decides what follows one parse of the buffer, and keeps the decoder of
    /// a complete message. `capacity` is the buffer's capacity after the parse
    /// and `may_read` says whether this attempt may ask for another read.
    pub fn conclude(
        &mut self,
        message: Result<Async<Message>, ParseError>,
        capacity: usize,
        may_read: bool,
    ) -> (action: ParseAction)
        ensures
            action@ == attempted(message_view(message), capacity >= MAX_BUFFER_SIZE, may_read),
            final(self)@ == decoder_after(old(self)@, message_view(message)),
    {
        match message {
            Err(e) => ParseAction::Return(Err(HttpResponseParserError::Error(e))),
            Ok(Async::Ready((response, decoder))) => {
                self.decoder = decoder;
                ParseAction::Return(Ok(Async::Ready(response)))
            },
            Ok(Async::NotReady) => {
                if capacity >= MAX_BUFFER_SIZE {
                    ParseAction::Return(Err(HttpResponseParserError::Error(ParseError::TooLarge)))
                } else if may_read {
                    ParseAction::Refill
                } else {
                    ParseAction::Return(Ok(Async::NotReady))
                }
            },
        }
    }

    /// Parses the buffer once and decides what follows. The buffer's capacity
    /// is the allocator's choice, so the action is stated for both sides of
    /// the limit; a buffer that holds as many bytes as the limit is at it.
    pub fn attempt(&mut self, buf: &mut BytesMut, may_read: bool) -> (action: ParseAction)
        ensures
            buffered(*final(buf)) == buffered(*old(buf)).skip(
                consumed_by(buffered(*old(buf))) as int,
            ),
            final(self)@ == decoder_after(old(self)@, message_of(buffered(*old(buf)))),
            action@ == attempted(message_of(buffered(*old(buf))), true, may_read) || action@
                == attempted(message_of(buffered(*old(buf))), false, may_read),
            buffered(*final(buf)).len() >= MAX_BUFFER_SIZE ==> action@ == attempted(
                message_of(buffered(*old(buf))),
                true,
                may_read,
            ),
    {
        let message = parse_message(buf);
        let capacity = buf.capacity();
        self.conclude(message, capacity, may_read)
    }

    /// The header phase: advances the parse of a response head by one event.
    ///
    /// The action is [`parse_model`] of the event and the buffered bytes, for
    /// the capacity that the buffer turns out to have. Bytes are taken off the
    /// buffer, and the decoder is replaced, only by a parse, as
    /// [`parse_message`] says.
    pub fn parse(&mut self, event: ParseEvent, buf: &mut BytesMut) -> (action: ParseAction)
        ensures
            buffered(*final(buf)) == if attempts(event, buffered(*old(buf))) {
                buffered(*old(buf)).skip(consumed_by(buffered(*old(buf))) as int)
            } else {
                buffered(*old(buf))
            },
            final(self)@ == if attempts(event, buffered(*old(buf))) {
                decoder_after(old(self)@, message_of(buffered(*old(buf))))
            } else {
                old(self)@
            },
            action@ == parse_model(event, buffered(*old(buf)), true) || action@ == parse_model(
                event,
                buffered(*old(buf)),
                false,
            ),
            buffered(*final(buf)).len() >= MAX_BUFFER_SIZE ==> action@ == parse_model(
                event,
                buffered(*old(buf)),
                true,
            ),
    {
        match event {
            ParseEvent::Start => {
                if buf.len() == 0 {
                    ParseAction::Fill
                } else {
                    self.attempt(buf, true)
                }
            },
            ParseEvent::Filled(outcome) => match outcome {
                ReadOutcome::Ready(n) => {
                    if n == 0 {
                        ParseAction::Return(Err(HttpResponseParserError::Disconnect))
                    } else {
                        self.attempt(buf, false)
                    }
                },
                ReadOutcome::NotReady => ParseAction::Return(Ok(Async::NotReady)),
                ReadOutcome::Failed(e) => ParseAction::Return(
                    Err(HttpResponseParserError::Error(ParseError::Io(e))),
                ),
            },
            ParseEvent::Refilled(outcome) => match outcome {
                ReadOutcome::Ready(n) => {
                    if n == 0 {
                        ParseAction::Return(Err(HttpResponseParserError::Disconnect))
                    } else {
                        self.attempt(buf, true)
                    }
                },
                ReadOutcome::NotReady => ParseAction::Return(Ok(Async::NotReady)),
                ReadOutcome::Failed(e) => ParseAction::Return(
                    Err(HttpResponseParserError::Error(ParseError::Io(e))),
                ),
            },
        }
    }

    /// The payload phase: advances the reading of the body by one event.
    ///
    /// Without an active decoder the answer is always the end of the body, and
    /// neither the buffer nor the parser changes.
    pub fn parse_payload(&mut self, event: PayloadEvent, buf: &mut BytesMut) -> (action: PayloadAction)
        ensures
            action@ == payload_model(old(self)@, event, buffered(*old(buf))).action,
            final(self)@ == payload_model(old(self)@, event, buffered(*old(buf))).decoder,
            buffered(*final(buf)) == payload_model(old(self)@, event, buffered(*old(buf))).rest,
            old(self)@ is None ==> action@ == PayloadActionModel::Return(Ok(Async::Ready(None)))
                && final(self)@ is None && buffered(*final(buf)) == buffered(*old(buf)),
    {
        let mut decoder = match self.decoder {
            Some(decoder) => decoder,
            None => {
                return PayloadAction::Return(Ok(Async::Ready(None)));
            },
        };
        match event {
            PayloadEvent::Start => PayloadAction::Read,
            PayloadEvent::Read(ReadOutcome::Ready(n)) => {
                if n == 0 {
                    PayloadAction::Return(Err(PayloadError::Incomplete))
                } else {
                    let chunk = decoder.decode(buf);
                    self.decoder = Some(decoder);
                    PayloadAction::Return(chunk)
                }
            },
            PayloadEvent::Read(ReadOutcome::NotReady) => PayloadAction::Return(Ok(Async::NotReady)),
            PayloadEvent::Read(ReadOutcome::Failed(e)) => PayloadAction::Return(
                Err(PayloadError::Io(e)),
            ),
        }
    }
}

} // verus!
