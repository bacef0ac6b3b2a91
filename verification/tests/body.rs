use bytes::BytesMut;
use http_response_parser::decoder::{ChunkedState, Decoder};
use http_response_parser::error::{FramingError, PayloadError};
use http_response_parser::transport::Async;

fn decode(decoder: &mut Decoder, buf: &mut BytesMut) -> Result<Async<Option<Vec<u8>>>, FramingError> {
    match decoder.decode(buf) {
        Ok(Async::Ready(chunk)) => Ok(Async::Ready(chunk.map(|c| c.to_vec()))),
        Ok(Async::NotReady) => Ok(Async::NotReady),
        Err(PayloadError::Framing(e)) => Err(e),
        Err(other) => panic!("unexpected: {:?}", other),
    }
}

fn chunk(bytes: &[u8]) -> Result<Async<Option<Vec<u8>>>, FramingError> {
    Ok(Async::Ready(Some(bytes.to_vec())))
}

const END: Result<Async<Option<Vec<u8>>>, FramingError> = Ok(Async::Ready(None));
const MORE: Result<Async<Option<Vec<u8>>>, FramingError> = Ok(Async::NotReady);

/// Feeds `input` in pieces of `size` bytes and collects what comes out until
/// the body ends, fails, or the input runs out.
fn run(mut decoder: Decoder, input: &[u8], size: usize) -> (Vec<u8>, Result<bool, FramingError>, Vec<u8>) {
    let mut buf = BytesMut::new();
    let mut body = Vec::new();
    for piece in input.chunks(size) {
        buf.extend_from_slice(piece);
        loop {
            match decode(&mut decoder, &mut buf) {
                Ok(Async::Ready(Some(c))) => body.extend_from_slice(&c),
                Ok(Async::Ready(None)) => return (body, Ok(true), buf.to_vec()),
                Ok(Async::NotReady) => break,
                Err(e) => return (body, Err(e), buf.to_vec()),
            }
        }
    }
    (body, Ok(false), buf.to_vec())
}

#[test]
fn constructors_name_the_three_framings() {
    assert_eq!(Decoder::length(7), Decoder::FixedLength(7));
    assert_eq!(Decoder::chunked(), Decoder::Chunked(ChunkedState::Size, 0));
    assert_eq!(Decoder::eof(), Decoder::ReadUntilClose);
}

#[test]
fn fixed_length_hands_out_what_belongs_to_the_body() {
    let mut decoder = Decoder::length(5);
    let mut buf = BytesMut::new();
    assert_eq!(decode(&mut decoder, &mut buf), MORE);
    assert_eq!(decoder, Decoder::FixedLength(5));
    buf.extend_from_slice(b"he");
    assert_eq!(decode(&mut decoder, &mut buf), chunk(b"he"));
    assert_eq!(decoder, Decoder::FixedLength(3));
    assert!(buf.is_empty());
    buf.extend_from_slice(b"llo world");
    assert_eq!(decode(&mut decoder, &mut buf), chunk(b"llo"));
    assert_eq!(decoder, Decoder::FixedLength(0));
    assert_eq!(&buf[..], b" world");
    assert_eq!(decode(&mut decoder, &mut buf), END);
    assert_eq!(decode(&mut decoder, &mut buf), END);
    assert_eq!(&buf[..], b" world");
}

#[test]
fn fixed_length_zero_ends_at_once() {
    let mut decoder = Decoder::length(0);
    let mut buf = BytesMut::new();
    assert_eq!(decode(&mut decoder, &mut buf), END);
    buf.extend_from_slice(b"later");
    assert_eq!(decode(&mut decoder, &mut buf), END);
    assert_eq!(&buf[..], b"later");
    assert_eq!(decoder, Decoder::FixedLength(0));
}

#[test]
fn fixed_length_counts_large_bodies() {
    let mut decoder = Decoder::length(u64::MAX);
    let mut buf = BytesMut::from(&b"abc"[..]);
    assert_eq!(decode(&mut decoder, &mut buf), chunk(b"abc"));
    assert_eq!(decoder, Decoder::FixedLength(u64::MAX - 3));
}

#[test]
fn read_until_close_hands_out_everything() {
    let mut decoder = Decoder::eof();
    let mut buf = BytesMut::new();
    assert_eq!(decode(&mut decoder, &mut buf), MORE);
    buf.extend_from_slice(b"anything at all");
    assert_eq!(decode(&mut decoder, &mut buf), chunk(b"anything at all"));
    assert!(buf.is_empty());
    assert_eq!(decode(&mut decoder, &mut buf), MORE);
    assert_eq!(decoder, Decoder::ReadUntilClose);
}

#[test]
fn chunked_decodes_a_body() {
    let input = b"4\r\nRust\r\n0\r\n\r\n";
    let (body, end, rest) = run(Decoder::chunked(), input, input.len());
    assert_eq!(body, b"Rust".to_vec());
    assert_eq!(end, Ok(true));
    assert!(rest.is_empty());
}

#[test]
fn chunked_step_by_step() {
    let mut decoder = Decoder::chunked();
    let mut buf = BytesMut::from(&b"1a"[..]);
    assert_eq!(decode(&mut decoder, &mut buf), MORE);
    assert_eq!(decoder, Decoder::Chunked(ChunkedState::Size, 26));
    buf.extend_from_slice(b" \t");
    assert_eq!(decode(&mut decoder, &mut buf), MORE);
    assert_eq!(decoder, Decoder::Chunked(ChunkedState::SizeLws, 26));
    buf.extend_from_slice(b";name=value");
    assert_eq!(decode(&mut decoder, &mut buf), MORE);
    assert_eq!(decoder, Decoder::Chunked(ChunkedState::Extension, 26));
    buf.extend_from_slice(b"\r");
    assert_eq!(decode(&mut decoder, &mut buf), MORE);
    assert_eq!(decoder, Decoder::Chunked(ChunkedState::SizeLf, 26));
    buf.extend_from_slice(b"\n");
    assert_eq!(decode(&mut decoder, &mut buf), MORE);
    assert_eq!(decoder, Decoder::Chunked(ChunkedState::Body, 26));
    buf.extend_from_slice(b"abcdefghij");
    assert_eq!(decode(&mut decoder, &mut buf), chunk(b"abcdefghij"));
    assert_eq!(decoder, Decoder::Chunked(ChunkedState::Body, 16));
    buf.extend_from_slice(b"klmnopqrstuvwxyz\r\n0");
    assert_eq!(decode(&mut decoder, &mut buf), chunk(b"klmnopqrstuvwxyz"));
    assert_eq!(decoder, Decoder::Chunked(ChunkedState::BodyCr, 0));
    assert_eq!(&buf[..], b"\r\n0");
    assert_eq!(decode(&mut decoder, &mut buf), MORE);
    assert_eq!(decoder, Decoder::Chunked(ChunkedState::Size, 0));
    buf.extend_from_slice(b"\r\n\r");
    assert_eq!(decode(&mut decoder, &mut buf), MORE);
    assert_eq!(decoder, Decoder::Chunked(ChunkedState::EndLf, 0));
    buf.extend_from_slice(b"\nnext");
    assert_eq!(decode(&mut decoder, &mut buf), END);
    assert_eq!(decoder, Decoder::Chunked(ChunkedState::End, 0));
    assert_eq!(&buf[..], b"next");
    assert_eq!(decode(&mut decoder, &mut buf), END);
    assert_eq!(&buf[..], b"next");
}

#[test]
fn chunked_is_the_same_however_the_input_is_cut() {
    let input = b"5\r\nhello\r\nA;x\r\n0123456789\r\n1 \r\n!\r\n0\r\n\r\ntail";
    for size in 1..=input.len() {
        let (body, end, _) = run(Decoder::chunked(), input, size);
        assert_eq!(body, b"hello0123456789!".to_vec(), "size {}", size);
        assert_eq!(end, Ok(true), "size {}", size);
    }
    let (_, _, rest) = run(Decoder::chunked(), input, input.len());
    assert_eq!(rest, b"tail".to_vec());
}

#[test]
fn chunked_reads_hexadecimal_sizes_in_both_cases() {
    for (text, n) in [("f", 15u64), ("F", 15), ("10", 16), ("aB", 171), ("ffffffffffffffff", u64::MAX)] {
        let mut decoder = Decoder::chunked();
        let mut buf = BytesMut::from(text.as_bytes());
        assert_eq!(decode(&mut decoder, &mut buf), MORE);
        assert_eq!(decoder, Decoder::Chunked(ChunkedState::Size, n));
    }
}

#[test]
fn chunked_refuses_malformed_framing() {
    let cases: [(&[u8], FramingError); 9] = [
        (b"g\r\n", FramingError::ChunkSize),
        (b"\n", FramingError::ChunkSize),
        (b"10000000000000000\r\n", FramingError::ChunkSize),
        (b"1 x\r\n", FramingError::ChunkSizeLine),
        (b"1\rx", FramingError::ChunkSizeLine),
        (b"1\r\naX", FramingError::ChunkBody),
        (b"1\r\na\rX", FramingError::ChunkBody),
        (b"0\r\nX", FramingError::ChunkEnd),
        (b"0\r\n\rX", FramingError::ChunkEnd),
    ];
    for (input, error) in cases {
        for size in [1, input.len()] {
            let (_, end, _) = run(Decoder::chunked(), input, size);
            assert_eq!(end, Err(error), "{:?}", input);
        }
    }
}

#[test]
fn a_refused_byte_is_consumed_and_the_decoder_stays() {
    let mut decoder = Decoder::chunked();
    let mut buf = BytesMut::from(&b"1fzrest"[..]);
    assert_eq!(decode(&mut decoder, &mut buf), Err(FramingError::ChunkSize));
    assert_eq!(&buf[..], b"rest");
    assert_eq!(decoder, Decoder::Chunked(ChunkedState::Size, 31));
}

#[test]
fn an_unfinished_chunked_body_asks_for_more() {
    let (body, end, rest) = run(Decoder::chunked(), b"5\r\nhel", 2);
    assert_eq!(body, b"hel".to_vec());
    assert_eq!(end, Ok(false));
    assert!(rest.is_empty());
}
