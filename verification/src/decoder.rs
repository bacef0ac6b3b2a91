//! Body decoders: fixed length, chunked, and read-until-close.

use crate::buffer::{buffered, frozen, window};
use crate::error::{FramingError, PayloadError};
use crate::transport::Async;
use bytes::{Bytes, BytesMut};
use vstd::prelude::*;

verus! {

/// Where a chunked decoder stands in the chunk framing.
#[derive(Debug, Clone, Copy, PartialEq, Eq, Structural)]
pub enum ChunkedState {
    /// In the hexadecimal digits of a chunk size.
    Size,
    /// In the blanks after a chunk size.
    SizeLws,
    /// In a chunk extension, which is skipped.
    Extension,
    /// After the carriage return that ends the size line.
    SizeLf,
    /// In the bytes of a chunk.
    Body,
    /// After the bytes of a chunk.
    BodyCr,
    /// After the carriage return that follows a chunk.
    BodyLf,
    /// After the size line of the last chunk.
    EndCr,
    /// After the carriage return that closes the body.
    EndLf,
    /// The body is complete.
    End,
}

/// How a response body is framed, with the decoding state so far.
#[derive(Debug, Clone, Copy, PartialEq, Eq, Structural)]
pub enum Decoder {
    /// A body of known length; the field counts the bytes still to come.
    FixedLength(u64),
    /// A chunked body; the fields are the position in the framing and the
    /// bytes still to come of the current chunk.
    Chunked(ChunkedState, u64),
    /// A body that lasts until the peer closes the connection.
    ReadUntilClose,
}

impl Decoder {
    /// A decoder for a body of `n` bytes.
    pub fn length(n: u64) -> (d: Decoder)
        ensures
            d == Decoder::FixedLength(n),
    {
        Decoder::FixedLength(n)
    }

    /// A decoder for a chunked body, at its start.
    pub fn chunked() -> (d: Decoder)
        ensures
            d == Decoder::Chunked(ChunkedState::Size, 0),
    {
        Decoder::Chunked(ChunkedState::Size, 0)
    }

    /// A decoder for a body that lasts until the connection closes.
    pub fn eof() -> (d: Decoder)
        ensures
            d == Decoder::ReadUntilClose,
    {
        Decoder::ReadUntilClose
    }
}

/// What one call of a decoder hands back, as plain values: a chunk of body
/// bytes, the end of the body (`None`), a request for more bytes, or a failure.
pub type PayloadModel = Result<Async<Option<Seq<u8>>>, PayloadError>;

/// A decoding result as plain values.
pub open spec fn payload_view(r: Result<Async<Option<Bytes>>, PayloadError>) -> PayloadModel {
    match r {
        Ok(Async::Ready(Some(chunk))) => Ok(Async::Ready(Some(frozen(chunk)))),
        Ok(Async::Ready(None)) => Ok(Async::Ready(None)),
        Ok(Async::NotReady) => Ok(Async::NotReady),
        Err(e) => Err(e),
    }
}

/// One call of a decoder: the decoder afterwards, the bytes left in the
/// buffer, and what is handed back.
pub struct Decoded {
    pub decoder: Decoder,
    pub rest: Seq<u8>,
    pub result: PayloadModel,
}

/// The value of a hexadecimal digit.
pub open spec fn hex_value(b: u8) -> Option<u64> {
    if 48 <= b <= 57 {
        Some((b - 48) as u64)
    } else if 97 <= b <= 102 {
        Some((b - 87) as u64)
    } else if 65 <= b <= 70 {
        Some((b - 55) as u64)
    } else {
        None
    }
}

/// How one byte of chunk framing moves a chunked decoder on. The states
/// `Body` and `End` read no framing bytes and stay as they are.
pub open spec fn chunk_step(state: ChunkedState, size: u64, b: u8) -> Result<
    (ChunkedState, u64),
    FramingError,
> {
    match state {
        ChunkedState::Size => match hex_value(b) {
            Some(digit) => if size * 16 + digit <= u64::MAX {
                Ok((ChunkedState::Size, (size * 16 + digit) as u64))
            } else {
                Err(FramingError::ChunkSize)
            },
            None => if b == 9 || b == 32 {
                Ok((ChunkedState::SizeLws, size))
            } else if b == 59 {
                Ok((ChunkedState::Extension, size))
            } else if b == 13 {
                Ok((ChunkedState::SizeLf, size))
            } else {
                Err(FramingError::ChunkSize)
            },
        },
        ChunkedState::SizeLws => if b == 9 || b == 32 {
            Ok((ChunkedState::SizeLws, size))
        } else if b == 59 {
            Ok((ChunkedState::Extension, size))
        } else if b == 13 {
            Ok((ChunkedState::SizeLf, size))
        } else {
            Err(FramingError::ChunkSizeLine)
        },
        ChunkedState::Extension => if b == 13 {
            Ok((ChunkedState::SizeLf, size))
        } else {
            Ok((ChunkedState::Extension, size))
        },
        ChunkedState::SizeLf => if b != 10 {
            Err(FramingError::ChunkSizeLine)
        } else if size > 0 {
            Ok((ChunkedState::Body, size))
        } else {
            Ok((ChunkedState::EndCr, size))
        },
        ChunkedState::BodyCr => if b == 13 {
            Ok((ChunkedState::BodyLf, size))
        } else {
            Err(FramingError::ChunkBody)
        },
        ChunkedState::BodyLf => if b == 10 {
            Ok((ChunkedState::Size, size))
        } else {
            Err(FramingError::ChunkBody)
        },
        ChunkedState::EndCr => if b == 13 {
            Ok((ChunkedState::EndLf, size))
        } else {
            Err(FramingError::ChunkEnd)
        },
        ChunkedState::EndLf => if b == 10 {
            Ok((ChunkedState::End, size))
        } else {
            Err(FramingError::ChunkEnd)
        },
        ChunkedState::Body => Ok((ChunkedState::Body, size)),
        ChunkedState::End => Ok((ChunkedState::End, size)),
    }
}

/// How many of `available` bytes belong to a body part of which `remaining`
/// bytes are still to come.
pub open spec fn share(remaining: u64, available: nat) -> nat {
    if remaining <= available {
        remaining as nat
    } else {
        available
    }
}

/// One call of a chunked decoder on the buffered bytes. Framing bytes are read
/// one by one until the body has ended, a chunk has bytes to hand out, the
/// buffer is empty, or a byte is refused; a refused byte is consumed and the
/// decoder stays where it was.
pub open spec fn chunked_decoded(state: ChunkedState, size: u64, bytes: Seq<u8>) -> Decoded
    decreases bytes.len(),
{
    if state == ChunkedState::End {
        Decoded { decoder: Decoder::Chunked(state, size), rest: bytes, result: Ok(Async::Ready(None)) }
    } else if bytes.len() == 0 {
        Decoded { decoder: Decoder::Chunked(state, size), rest: bytes, result: Ok(Async::NotReady) }
    } else if state == ChunkedState::Body {
        let n = share(size, bytes.len());
        let left = (size - n) as u64;
        Decoded {
            decoder: Decoder::Chunked(
                if left > 0 {
                    ChunkedState::Body
                } else {
                    ChunkedState::BodyCr
                },
                left,
            ),
            rest: bytes.skip(n as int),
            result: Ok(Async::Ready(Some(bytes.take(n as int)))),
        }
    } else {
        match chunk_step(state, size, bytes[0]) {
            Ok((next, next_size)) => chunked_decoded(next, next_size, bytes.skip(1)),
            Err(e) => Decoded {
                decoder: Decoder::Chunked(state, size),
                rest: bytes.skip(1),
                result: Err(PayloadError::Framing(e)),
            },
        }
    }
}

/// One call of a decoder on the buffered bytes.
///
/// A fixed-length decoder reports the end once nothing remains, asks for more
/// while the buffer is empty, and otherwise hands out as many buffered bytes as
/// still belong to the body. A read-until-close decoder hands out whatever is
/// buffered and never reports the end by itself.
pub open spec fn decoded(decoder: Decoder, bytes: Seq<u8>) -> Decoded {
    match decoder {
        Decoder::FixedLength(remaining) => if remaining == 0 {
            Decoded { decoder, rest: bytes, result: Ok(Async::Ready(None)) }
        } else if bytes.len() == 0 {
            Decoded { decoder, rest: bytes, result: Ok(Async::NotReady) }
        } else {
            let n = share(remaining, bytes.len());
            Decoded {
                decoder: Decoder::FixedLength((remaining - n) as u64),
                rest: bytes.skip(n as int),
                result: Ok(Async::Ready(Some(bytes.take(n as int)))),
            }
        },
        Decoder::Chunked(state, size) => chunked_decoded(state, size, bytes),
        Decoder::ReadUntilClose => if bytes.len() == 0 {
            Decoded { decoder, rest: bytes, result: Ok(Async::NotReady) }
        } else {
            Decoded {
                decoder,
                rest: Seq::empty(),
                result: Ok(Async::Ready(Some(bytes))),
            }
        },
    }
}

/// Where a scan of chunk framing stopped.
enum ScanStop {
    /// The body has ended.
    End,
    /// The framing bytes ran out.
    NeedMore,
    /// The next bytes are chunk data.
    Data,
    /// The last byte read was refused.
    Invalid(FramingError),
}

fn hex_digit(b: u8) -> (r: Option<u64>)
    ensures
        r == hex_value(b),
{
    if 48 <= b && b <= 57 {
        Some((b - 48) as u64)
    } else if 97 <= b && b <= 102 {
        Some((b - 87) as u64)
    } else if 65 <= b && b <= 70 {
        Some((b - 55) as u64)
    } else {
        None
    }
}

fn step_chunk(state: ChunkedState, size: u64, b: u8) -> (r: Result<(ChunkedState, u64), FramingError>)
    ensures
        r == chunk_step(state, size, b),
{
    match state {
        ChunkedState::Size => match hex_digit(b) {
            Some(digit) => if size <= (u64::MAX - digit) / 16 {
                Ok((ChunkedState::Size, size * 16 + digit))
            } else {
                Err(FramingError::ChunkSize)
            },
            None => if b == 9 || b == 32 {
                Ok((ChunkedState::SizeLws, size))
            } else if b == 59 {
                Ok((ChunkedState::Extension, size))
            } else if b == 13 {
                Ok((ChunkedState::SizeLf, size))
            } else {
                Err(FramingError::ChunkSize)
            },
        },
        ChunkedState::SizeLws => if b == 9 || b == 32 {
            Ok((ChunkedState::SizeLws, size))
        } else if b == 59 {
            Ok((ChunkedState::Extension, size))
        } else if b == 13 {
            Ok((ChunkedState::SizeLf, size))
        } else {
            Err(FramingError::ChunkSizeLine)
        },
        ChunkedState::Extension => if b == 13 {
            Ok((ChunkedState::SizeLf, size))
        } else {
            Ok((ChunkedState::Extension, size))
        },
        ChunkedState::SizeLf => if b != 10 {
            Err(FramingError::ChunkSizeLine)
        } else if size > 0 {
            Ok((ChunkedState::Body, size))
        } else {
            Ok((ChunkedState::EndCr, size))
        },
        ChunkedState::BodyCr => if b == 13 {
            Ok((ChunkedState::BodyLf, size))
        } else {
            Err(FramingError::ChunkBody)
        },
        ChunkedState::BodyLf => if b == 10 {
            Ok((ChunkedState::Size, size))
        } else {
            Err(FramingError::ChunkBody)
        },
        ChunkedState::EndCr => if b == 13 {
            Ok((ChunkedState::EndLf, size))
        } else {
            Err(FramingError::ChunkEnd)
        },
        ChunkedState::EndLf => if b == 10 {
            Ok((ChunkedState::End, size))
        } else {
            Err(FramingError::ChunkEnd)
        },
        ChunkedState::Body => Ok((ChunkedState::Body, size)),
        ChunkedState::End => Ok((ChunkedState::End, size)),
    }
}

/// Reads framing bytes from the front of `bytes` and says where it stopped:
/// the state and size reached, and how many bytes were read.
fn scan_framing(state: ChunkedState, size: u64, bytes: &[u8]) -> (r: (
    ChunkedState,
    u64,
    usize,
    ScanStop,
))
    ensures
        r.2 <= bytes@.len(),
        chunked_decoded(state, size, bytes@) == chunked_decoded(r.0, r.1, bytes@.skip(r.2 as int))
            || r.3 is Invalid,
        match r.3 {
            ScanStop::End => r.0 == ChunkedState::End,
            ScanStop::NeedMore => r.0 != ChunkedState::End && r.2 == bytes@.len(),
            ScanStop::Data => r.0 == ChunkedState::Body && r.2 < bytes@.len(),
            ScanStop::Invalid(e) => chunked_decoded(state, size, bytes@) == (Decoded {
                decoder: Decoder::Chunked(r.0, r.1),
                rest: bytes@.skip(r.2 as int),
                result: Err(PayloadError::Framing(e)),
            }),
        },
{
    let mut at = state;
    let mut left = size;
    let mut i: usize = 0;
    assert(bytes@.skip(0) =~= bytes@);
    loop
        invariant
            i <= bytes@.len(),
            chunked_decoded(state, size, bytes@) == chunked_decoded(at, left, bytes@.skip(i as int)),
        decreases bytes@.len() - i,
    {
        if at == ChunkedState::End {
            return (at, left, i, ScanStop::End);
        }
        if i == bytes.len() {
            return (at, left, i, ScanStop::NeedMore);
        }
        if at == ChunkedState::Body {
            return (at, left, i, ScanStop::Data);
        }
        let ghost tail = bytes@.skip(i as int);
        assert(tail[0] == bytes@[i as int]);
        assert(tail.skip(1) =~= bytes@.skip(i + 1));
        match step_chunk(at, left, bytes[i]) {
            Ok((next, next_size)) => {
                at = next;
                left = next_size;
                i += 1;
            },
            Err(e) => {
                return (at, left, i + 1, ScanStop::Invalid(e));
            },
        }
    }
}

impl Decoder {
    /// Decodes what the buffer holds: takes the bytes it can frame off the
    /// front of the buffer and hands back a chunk of the body, the end of the
    /// body, or a request for more bytes.
    pub fn decode(&mut self, buf: &mut BytesMut) -> (r: Result<Async<Option<Bytes>>, PayloadError>)
        ensures
            *final(self) == decoded(*old(self), buffered(*old(buf))).decoder,
            buffered(*final(buf)) == decoded(*old(self), buffered(*old(buf))).rest,
            payload_view(r) == decoded(*old(self), buffered(*old(buf))).result,
    {
        let len = buf.len();
        match *self {
            Decoder::FixedLength(remaining) => {
                if remaining == 0 {
                    Ok(Async::Ready(None))
                } else if len == 0 {
                    Ok(Async::NotReady)
                } else {
                    let n: usize = if remaining <= len as u64 {
                        remaining as usize
                    } else {
                        len
                    };
                    let chunk = buf.split_to(n).freeze();
                    *self = Decoder::FixedLength(remaining - n as u64);
                    Ok(Async::Ready(Some(chunk)))
                }
            },
            Decoder::ReadUntilClose => {
                if len == 0 {
                    Ok(Async::NotReady)
                } else {
                    let ghost all = buffered(*buf);
                    let chunk = buf.split_to(len).freeze();
                    assert(all.take(len as int) =~= all);
                    assert(all.skip(len as int) =~= Seq::<u8>::empty());
                    Ok(Async::Ready(Some(chunk)))
                }
            },
            Decoder::Chunked(state, size) => {
                let (state, size, read, stop) = scan_framing(state, size, window(buf));
                let ghost tail = buffered(*buf).skip(read as int);
                let _ = buf.split_to(read);
                match stop {
                    ScanStop::End => {
                        *self = Decoder::Chunked(state, size);
                        Ok(Async::Ready(None))
                    },
                    ScanStop::NeedMore => {
                        *self = Decoder::Chunked(state, size);
                        Ok(Async::NotReady)
                    },
                    ScanStop::Invalid(e) => {
                        *self = Decoder::Chunked(state, size);
                        Err(PayloadError::Framing(e))
                    },
                    ScanStop::Data => {
                        let left = len - read;
                        let n: usize = if size <= left as u64 {
                            size as usize
                        } else {
                            left
                        };
                        let chunk = buf.split_to(n).freeze();
                        let remaining = size - n as u64;
                        let next = if remaining > 0 {
                            ChunkedState::Body
                        } else {
                            ChunkedState::BodyCr
                        };
                        *self = Decoder::Chunked(next, remaining);
                        Ok(Async::Ready(Some(chunk)))
                    },
                }
            },
        }
    }
}

} // verus!
