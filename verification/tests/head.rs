use bytes::BytesMut;
use http_response_parser::decoder::{ChunkedState, Decoder};
use http_response_parser::error::ParseError;
use http_response_parser::message::{build_message, parse_message, select_decoder, MAX_HEADERS};
use http_response_parser::response::{ClientResponse, Version};
use http_response_parser::tokenizer::{RawHead, RawHeader};
use http_response_parser::transport::Async;

fn buffer(bytes: &[u8]) -> BytesMut {
    BytesMut::from(bytes)
}

fn ready(bytes: &[u8]) -> (ClientResponse, Option<Decoder>, BytesMut) {
    let mut buf = buffer(bytes);
    match parse_message(&mut buf) {
        Ok(Async::Ready((response, decoder))) => (response, decoder, buf),
        other => panic!("unexpected: {:?}", other),
    }
}

fn failure(bytes: &[u8]) -> (ParseError, BytesMut) {
    let mut buf = buffer(bytes);
    match parse_message(&mut buf) {
        Err(e) => (e, buf),
        other => panic!("unexpected: {:?}", other),
    }
}

fn head(code: u16, minor: u8, lines: &[(&[u8], &[u8])]) -> RawHead {
    RawHead {
        len: 0,
        minor_version: minor,
        code,
        headers: lines
            .iter()
            .map(|(name, value)| RawHeader { name: name.to_vec(), value: value.to_vec() })
            .collect(),
    }
}

#[test]
fn parses_a_simple_head() {
    let (response, decoder, buf) = ready(b"HTTP/1.1 200 OK\r\nContent-Length: 5\r\n\r\nhello");
    assert_eq!(response.status(), 200);
    assert_eq!(response.version(), Version::Http11);
    assert_eq!(response.headers().len(), 1);
    assert_eq!(response.headers().get("content-length").unwrap().as_bytes(), b"5");
    assert_eq!(decoder, Some(Decoder::FixedLength(5)));
    assert_eq!(&buf[..], b"hello");
}

#[test]
fn reads_http_1_0() {
    let (response, decoder, buf) = ready(b"HTTP/1.0 404 Not Found\r\n\r\n");
    assert_eq!(response.status, 404);
    assert_eq!(response.version, Version::Http10);
    assert!(response.headers.is_empty());
    assert_eq!(decoder, None);
    assert!(buf.is_empty());
}

#[test]
fn unknown_minor_version_is_read_as_1_0() {
    let (response, _) = build_message(&head(200, 7, &[])).unwrap();
    assert_eq!(response.version, Version::Http10);
    let (response, _) = build_message(&head(200, 0, &[])).unwrap();
    assert_eq!(response.version, Version::Http10);
    let (response, _) = build_message(&head(200, 1, &[])).unwrap();
    assert_eq!(response.version, Version::Http11);
}

#[test]
fn incomplete_head_is_not_ready_and_stays_buffered() {
    for cut in [1usize, 8, 9, 13, 17, 30, 37] {
        let whole = b"HTTP/1.1 200 OK\r\nContent-Length: 5\r\n\r\n";
        let mut buf = buffer(&whole[..cut]);
        assert!(matches!(parse_message(&mut buf), Ok(Async::NotReady)));
        assert_eq!(&buf[..], &whole[..cut]);
    }
}

#[test]
fn status_code_below_100_is_refused_and_nothing_is_consumed() {
    let bytes = b"HTTP/1.1 099 Low\r\n\r\nrest";
    let (e, buf) = failure(bytes);
    assert!(matches!(e, ParseError::Status));
    assert_eq!(&buf[..], &bytes[..]);
}

#[test]
fn status_code_range_is_100_to_599() {
    assert!(matches!(build_message(&head(99, 1, &[])), Err(ParseError::Status)));
    assert!(build_message(&head(100, 1, &[])).is_ok());
    assert!(build_message(&head(599, 1, &[])).is_ok());
    assert!(matches!(build_message(&head(600, 1, &[])), Err(ParseError::Status)));
    assert!(matches!(build_message(&head(999, 1, &[])), Err(ParseError::Status)));
    let (e, _) = failure(b"HTTP/1.1 600 High\r\n\r\n");
    assert!(matches!(e, ParseError::Status));
}

#[test]
fn tokenizer_errors_become_parse_errors() {
    assert!(matches!(failure(b"HTTP/2.0 200 OK\r\n\r\n").0, ParseError::Version));
    assert!(matches!(failure(b"HTTX/1.1 200 OK\r\n\r\n").0, ParseError::Version));
    assert!(matches!(failure(b"HTTP/1.1 2x0 OK\r\n\r\n").0, ParseError::Status));
    assert!(matches!(failure(b"HTTP/1.1 200 OK\r\nBad Name: x\r\n\r\n").0, ParseError::Header));
    assert!(matches!(failure(b"HTTP/1.1 200 OK\r\nName: a\x01b\r\n\r\n").0, ParseError::Header));
    assert!(matches!(failure(b"HTTP/1.1 200 OK\r\nName: a\r\n\rX").0, ParseError::Header));
    assert!(matches!(
        ParseError::from_tokenizer(httparse::Error::TooManyHeaders),
        ParseError::TooLarge
    ));
    assert!(matches!(ParseError::from_tokenizer(httparse::Error::Token), ParseError::Header));
    assert!(matches!(ParseError::from_tokenizer(httparse::Error::NewLine), ParseError::Header));
    assert!(matches!(
        ParseError::from_tokenizer(httparse::Error::HeaderValue),
        ParseError::Header
    ));
}

#[test]
fn a_failed_tokenization_leaves_the_buffer() {
    let bytes = b"HTTP/1.1 200 OK\r\nBad Name: x\r\n\r\n";
    let (_, buf) = failure(bytes);
    assert_eq!(&buf[..], &bytes[..]);
}

#[test]
fn ninety_six_header_lines_pass_and_one_more_is_too_large() {
    let mut text = b"HTTP/1.1 200 OK\r\n".to_vec();
    for i in 0..MAX_HEADERS {
        text.extend_from_slice(format!("X-H{}: {}\r\n", i, i).as_bytes());
    }
    let mut full = text.clone();
    full.extend_from_slice(b"\r\n");
    let (response, _, buf) = ready(&full);
    assert_eq!(response.headers.len(), 96);
    assert!(buf.is_empty());

    text.extend_from_slice(b"X-One-More: 1\r\n\r\n");
    let (e, _) = failure(&text);
    assert!(matches!(e, ParseError::TooLarge));
}

#[test]
fn a_head_with_too_many_lines_is_too_large() {
    let line: (&[u8], &[u8]) = (b"a", b"b");
    let lines = vec![line; 97];
    assert!(matches!(build_message(&head(200, 1, &lines)), Err(ParseError::TooLarge)));
    let lines = vec![line; 96];
    let (response, _) = build_message(&head(200, 1, &lines)).unwrap();
    assert_eq!(response.headers.get_all("a").iter().count(), 96);
}

#[test]
fn header_names_are_lower_cased() {
    let (response, _, _) = ready(b"HTTP/1.1 200 OK\r\nX-MiXed-Case: v\r\n\r\n");
    let names: Vec<String> = response.headers.keys().map(|k| k.as_str().to_string()).collect();
    assert_eq!(names, vec!["x-mixed-case".to_string()]);
}

#[test]
fn duplicate_headers_are_kept_in_order_under_one_name() {
    let (response, _, _) = ready(
        b"HTTP/1.1 200 OK\r\nSet-Cookie: a=1\r\nX-Other: o\r\nset-cookie: b=2\r\nSET-COOKIE: c=3\r\n\r\n",
    );
    let values: Vec<&[u8]> =
        response.headers.get_all("set-cookie").iter().map(|v| v.as_bytes()).collect();
    assert_eq!(values, vec![&b"a=1"[..], &b"b=2"[..], &b"c=3"[..]]);
    assert_eq!(response.headers.keys_len(), 2);
    assert_eq!(response.headers.len(), 4);
    assert_eq!(response.headers.get("set-cookie").unwrap().as_bytes(), b"a=1");
}

#[test]
fn header_values_are_kept_byte_for_byte() {
    let values: [&[u8]; 5] =
        [b"a  b\tc", b"!\"#$%&'()*+,-./:;<=>?@[\\]^_`{|}~", b"x", b"", b"caf\xc3\xa9 \xff"];
    for value in values {
        let (response, _) =
            build_message(&head(200, 1, &[(b"X-Value", value), (b"x-value", b" lead and trail ")]))
                .unwrap();
        let kept: Vec<&[u8]> =
            response.headers.get_all("x-value").iter().map(|v| v.as_bytes()).collect();
        assert_eq!(kept, vec![value, &b" lead and trail "[..]]);
    }
    let (response, _, _) = ready(b"HTTP/1.1 200 OK\r\nX-Value: in  the   middle\r\n\r\n");
    assert_eq!(response.headers.get("x-value").unwrap().as_bytes(), b"in  the   middle");
}

#[test]
fn invalid_header_names_are_header_errors() {
    let names: [&[u8]; 6] = [b"", b"bad name", b"bad:name", b"bad(name", b"caf\xc3\xa9", b"a\x00"];
    for name in names {
        let r = build_message(&head(200, 1, &[(b"ok", b"v"), (name, b"v")]));
        assert!(matches!(r, Err(ParseError::Header)), "{:?}", name);
    }
}

#[test]
fn header_name_bytes_follow_the_table() {
    let name = b"!\"#$%&'*+-.^_`|~09AZaz";
    let (response, _) = build_message(&head(200, 1, &[(name, b"v")])).unwrap();
    let stored: Vec<String> = response.headers.keys().map(|k| k.as_str().to_string()).collect();
    assert_eq!(stored, vec!["!\"#$%&'*+-.^_`|~09azaz".to_string()]);
    for b in [b' ', b'(', b')', b',', b'/', b':', b';', b'<', b'=', b'>', b'?', b'@', b'[', b'\\', b']', b'{', b'}', 0x7f, 0x80] {
        let r = build_message(&head(200, 1, &[(&[b'a', b][..], b"v")]));
        assert!(matches!(r, Err(ParseError::Header)), "{}", b);
    }
}

#[test]
fn overlong_header_name_is_a_header_error() {
    let long = vec![b'a'; 65536];
    assert!(matches!(build_message(&head(200, 1, &[(&long, b"v")])), Err(ParseError::Header)));
    let fits = vec![b'a'; 65535];
    assert!(build_message(&head(200, 1, &[(&fits, b"v")])).is_ok());
}

#[test]
fn invalid_header_values_are_header_errors() {
    let values: [&[u8]; 4] = [b"a\x00", b"\x1f", b"x\x7f", b"line\nbreak"];
    for value in values {
        let r = build_message(&head(200, 1, &[(b"x", value)]));
        assert!(matches!(r, Err(ParseError::Header)), "{:?}", value);
    }
    assert!(build_message(&head(200, 1, &[(b"x", b"tab\tand \x80\xff")])).is_ok());
}

#[test]
fn content_length_selects_a_fixed_length_decoder() {
    let cases: [(&[u8], u64); 5] = [
        (b"0", 0),
        (b"5", 5),
        (b"+7", 7),
        (b"0012", 12),
        (b"18446744073709551615", u64::MAX),
    ];
    for (text, n) in cases {
        let (_, decoder) = build_message(&head(200, 1, &[(b"Content-Length", text)])).unwrap();
        assert_eq!(decoder, Some(Decoder::FixedLength(n)));
    }
}

#[test]
fn invalid_content_length_is_a_header_error() {
    let texts: [&[u8]; 9] =
        [b"", b"+", b"-1", b"abc", b"1 2", b" 5", b"5 ", b"18446744073709551616", b"1\xff"];
    for text in texts {
        let r = build_message(&head(200, 1, &[(b"content-length", text)]));
        assert!(matches!(r, Err(ParseError::Header)), "{:?}", text);
    }
    let (e, buf) = failure(b"HTTP/1.1 200 OK\r\nContent-Length: five\r\n\r\nrest");
    assert!(matches!(e, ParseError::Header));
    assert_eq!(&buf[..], b"rest");
}

#[test]
fn the_first_content_length_decides() {
    let (_, decoder) =
        build_message(&head(200, 1, &[(b"Content-Length", b"3"), (b"content-length", b"x")]))
            .unwrap();
    assert_eq!(decoder, Some(Decoder::FixedLength(3)));
    let r = build_message(&head(200, 1, &[(b"Content-Length", b"x"), (b"content-length", b"3")]));
    assert!(matches!(r, Err(ParseError::Header)));
}

#[test]
fn chunked_transfer_encoding_selects_a_chunked_decoder() {
    let texts: [&[u8]; 4] = [b"chunked", b"Chunked", b"gzip, CHUNKED", b"xchunkedy"];
    for text in texts {
        let (_, decoder) = build_message(&head(200, 1, &[(b"Transfer-Encoding", text)])).unwrap();
        assert_eq!(decoder, Some(Decoder::Chunked(ChunkedState::Size, 0)));
    }
    let (_, decoder) = build_message(&head(200, 1, &[(b"Transfer-Encoding", b"gzip")])).unwrap();
    assert_eq!(decoder, None);
    let (_, decoder) = build_message(&head(200, 1, &[(b"Transfer-Encoding", b"chunke")])).unwrap();
    assert_eq!(decoder, None);
}

#[test]
fn transfer_encoding_that_is_no_text_is_a_header_error() {
    let r = build_message(&head(200, 1, &[(b"Transfer-Encoding", b"chunked\xff")]));
    assert!(matches!(r, Err(ParseError::Header)));
}

#[test]
fn upgrade_selects_read_until_close() {
    let (_, decoder) = build_message(&head(101, 1, &[(b"Upgrade", b"websocket")])).unwrap();
    assert_eq!(decoder, Some(Decoder::ReadUntilClose));
}

#[test]
fn selection_goes_by_precedence() {
    let all: [(&[u8], &[u8]); 3] =
        [(b"Upgrade", b"h2c"), (b"Transfer-Encoding", b"chunked"), (b"Content-Length", b"9")];
    let (_, decoder) = build_message(&head(200, 1, &all)).unwrap();
    assert_eq!(decoder, Some(Decoder::FixedLength(9)));
    let (_, decoder) = build_message(&head(200, 1, &all[..2])).unwrap();
    assert_eq!(decoder, Some(Decoder::Chunked(ChunkedState::Size, 0)));
    let (_, decoder) = build_message(&head(200, 1, &all[..1])).unwrap();
    assert_eq!(decoder, Some(Decoder::ReadUntilClose));
    let (_, decoder) =
        build_message(&head(200, 1, &[(b"Upgrade", b"h2c"), (b"Transfer-Encoding", b"gzip")]))
            .unwrap();
    assert_eq!(decoder, Some(Decoder::ReadUntilClose));
    let (_, decoder) = build_message(&head(204, 1, &[(b"Server", b"s")])).unwrap();
    assert_eq!(decoder, None);
}

#[test]
fn select_decoder_reads_a_header_map() {
    let mut headers = http::HeaderMap::new();
    assert_eq!(select_decoder(&headers).unwrap(), None);
    headers.append("upgrade", "x".parse().unwrap());
    assert_eq!(select_decoder(&headers).unwrap(), Some(Decoder::ReadUntilClose));
    headers.append("content-length", "10".parse().unwrap());
    headers.append("content-length", "20".parse().unwrap());
    assert_eq!(select_decoder(&headers).unwrap(), Some(Decoder::FixedLength(10)));
}

#[test]
fn only_the_head_is_taken_off_the_buffer() {
    let (_, _, buf) = ready(b"HTTP/1.1 200 OK\r\nA: b\r\n\r\nHTTP/1.1 204 No Content\r\n\r\n");
    assert_eq!(&buf[..], b"HTTP/1.1 204 No Content\r\n\r\n");
}
