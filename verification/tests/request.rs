use custom_http_server::common::{HttpVersion, ParseError};
use custom_http_server::request::{
    decode_text, parse_http_header_line, parse_http_header_lines, parse_http_payload,
    parse_http_request_line, parse_request, parse_request_line_text, parse_stream_buffer,
    MAX_REQUEST_SIZE,
};
use custom_http_server::text::Lines;

fn header_pairs(request: &custom_http_server::request::HttpRequest) -> Vec<(String, String)> {
    request.headers.headers.iter().map(|h| (h.key.clone(), h.value.clone())).collect()
}

#[test]
fn parses_a_request_without_a_body() {
    let request = parse_request(b"GET /index HTTP/1.1\nHost: localhost:8080\n\n").unwrap();
    assert_eq!(request.request_line.method, "GET");
    assert_eq!(request.request_line.uri, "/index");
    assert_eq!(request.request_line.version, HttpVersion::v1_1());
    assert_eq!(request.request_line.version.major_version, 1);
    assert_eq!(request.request_line.version.minor_version, 1);
    assert_eq!(
        header_pairs(&request),
        vec![(String::from("Host"), String::from("localhost:8080"))]
    );
    assert_eq!(request.payload.value, "");
}

#[test]
fn parses_a_request_with_a_body() {
    let request = parse_request(b"GET /index HTTP/1.1\nHost: localhost:8080\n\nhello").unwrap();
    assert_eq!(request.request_line.method, "GET");
    assert_eq!(request.request_line.uri, "/index");
    assert_eq!(request.request_line.version, HttpVersion::v1_1());
    assert_eq!(header_pairs(&request).len(), 1);
    assert_eq!(request.payload.value, "hello");
}

#[test]
fn missing_blank_line_is_an_error() {
    assert_eq!(
        parse_request(b"GET /index HTTP/1.1\nHost: localhost:8080\n"),
        Err(ParseError::MissingHeaderTerminator)
    );
    assert_eq!(
        parse_request(b"GET /index HTTP/1.1\nHost: localhost:8080"),
        Err(ParseError::MissingHeaderTerminator)
    );
    assert_eq!(parse_request(b"GET /index HTTP/1.1\n"), Err(ParseError::MissingHeaderTerminator));
    assert_eq!(parse_request(b"GET /index HTTP/1.1"), Err(ParseError::MissingHeaderTerminator));
}

#[test]
fn body_is_all_that_follows_the_blank_line() {
    let request = parse_stream_buffer("POST /p HTTP/1.0\n\nline one\nline two\n").unwrap();
    assert_eq!(request.payload.value, "line one\nline two\n");
    assert_eq!(header_pairs(&request).len(), 0);
    let request = parse_stream_buffer("POST /p HTTP/1.0\r\nA: b\r\n\r\n\r\nx\r\n").unwrap();
    assert_eq!(request.payload.value, "\r\nx\r\n");
}

#[test]
fn carriage_returns_before_line_feeds_are_dropped() {
    let request =
        parse_stream_buffer("GET / HTTP/1.1\r\nHost: a\r\nUser-Agent: curl/7.81.0\r\nAccept: */*\r\n\r\n")
            .unwrap();
    assert_eq!(request.request_line.version, HttpVersion::v1_1());
    assert_eq!(
        header_pairs(&request),
        vec![
            (String::from("Host"), String::from("a")),
            (String::from("User-Agent"), String::from("curl/7.81.0")),
            (String::from("Accept"), String::from("*/*")),
        ]
    );
    assert_eq!(request.payload.value, "");
}

#[test]
fn each_known_version_is_read_from_the_request_line() {
    for (text, version) in [
        ("HTTP/0.9", HttpVersion::v0_9()),
        ("HTTP/1.0", HttpVersion::v1_0()),
        ("HTTP/1.1", HttpVersion::v1_1()),
        ("HTTP/2.0", HttpVersion::v2_0()),
        ("HTTP/3.0", HttpVersion::v3_0()),
    ] {
        let raw = format!("GET / {}\n\n", text);
        assert_eq!(parse_stream_buffer(raw.as_str()).unwrap().request_line.version, version);
    }
}

#[test]
fn request_line_needs_exactly_three_pieces() {
    for line in ["", "GET", "GET /", "GET / HTTP/1.1 extra", "GET  / HTTP/1.1", " GET / HTTP/1.1",
        "GET / HTTP/1.1 "]
    {
        assert_eq!(
            parse_request_line_text(line),
            Err(ParseError::MalformedRequestLine),
            "{:?}",
            line
        );
    }
    let line = parse_request_line_text("GET  HTTP/1.1").unwrap();
    assert_eq!((line.method.as_str(), line.uri.as_str()), ("GET", ""));
    let line = parse_request_line_text("DELETE /a/b?c=d HTTP/2.0").unwrap();
    assert_eq!((line.method.as_str(), line.uri.as_str()), ("DELETE", "/a/b?c=d"));
    assert_eq!(line.version, HttpVersion::v2_0());
}

#[test]
fn request_line_with_unknown_version() {
    assert_eq!(parse_request_line_text("GET / HTTP/1.2"), Err(ParseError::UnknownVersion));
    assert_eq!(parse_request_line_text("GET / http/1.1"), Err(ParseError::UnknownVersion));
    assert_eq!(parse_request_line_text("GET / "), Err(ParseError::UnknownVersion));
    assert_eq!(parse_request(b"GET / HTTP/9.9\n\n"), Err(ParseError::UnknownVersion));
}

#[test]
fn empty_input_has_no_request_line() {
    assert_eq!(parse_request(b""), Err(ParseError::MalformedRequestLine));
    assert_eq!(parse_stream_buffer(""), Err(ParseError::MalformedRequestLine));
    assert_eq!(parse_stream_buffer("\n\n"), Err(ParseError::MalformedRequestLine));
    let mut lines = Lines::new("");
    assert_eq!(parse_http_request_line(&mut lines), Err(ParseError::MalformedRequestLine));
}

#[test]
fn request_line_is_read_from_the_first_line_only() {
    let mut lines = Lines::new("PUT /x HTTP/1.0\r\nrest");
    let line = parse_http_request_line(&mut lines).unwrap();
    assert_eq!((line.method.as_str(), line.uri.as_str()), ("PUT", "/x"));
    assert_eq!(line.version, HttpVersion::v1_0());
    assert_eq!(lines.take_rest(), "rest");
}

#[test]
fn header_line_splits_at_the_first_colon() {
    let h = parse_http_header_line("Host: localhost:8080").unwrap();
    assert_eq!((h.key.as_str(), h.value.as_str()), ("Host", "localhost:8080"));
    let h = parse_http_header_line("  Accept \t:   */*  ").unwrap();
    assert_eq!((h.key.as_str(), h.value.as_str()), ("Accept", "*/*"));
    let h = parse_http_header_line("X-Empty:").unwrap();
    assert_eq!((h.key.as_str(), h.value.as_str()), ("X-Empty", ""));
    let h = parse_http_header_line(":").unwrap();
    assert_eq!((h.key.as_str(), h.value.as_str()), ("", ""));
    let h = parse_http_header_line("A:b c : d").unwrap();
    assert_eq!((h.key.as_str(), h.value.as_str()), ("A", "b c : d"));
}

#[test]
fn header_line_without_a_colon_is_an_error() {
    assert_eq!(parse_http_header_line("Host localhost"), Err(ParseError::MalformedHeaderLine));
    assert_eq!(parse_http_header_line(""), Err(ParseError::MalformedHeaderLine));
    assert_eq!(parse_http_header_line("   "), Err(ParseError::MalformedHeaderLine));
    assert_eq!(
        parse_request(b"GET / HTTP/1.1\nno colon here\n\n"),
        Err(ParseError::MalformedHeaderLine)
    );
    assert_eq!(parse_request(b"GET / HTTP/1.1\n \n\n"), Err(ParseError::MalformedHeaderLine));
}

#[test]
fn first_fault_decides_the_error() {
    assert_eq!(parse_request(b"GET / HTTP/1.1\nbad\nHost: a"), Err(ParseError::MalformedHeaderLine));
    assert_eq!(parse_request(b"GET / HTTP/1.1\nHost: a\nbad"), Err(ParseError::MalformedHeaderLine));
    assert_eq!(parse_request(b"GET /\nbad"), Err(ParseError::MalformedRequestLine));
    assert_eq!(parse_request(b"GET / HTTP/7.7\nbad"), Err(ParseError::UnknownVersion));
}

#[test]
fn header_lines_stop_at_the_blank_line() {
    let mut lines = Lines::new("A: 1\nB: 2\n\nC: 3\n");
    let headers = parse_http_header_lines(&mut lines).unwrap();
    assert_eq!(headers.to_string(), "A: 1\nB: 2");
    let payload = parse_http_payload(&mut lines);
    assert_eq!(payload.value, "C: 3\n");
    assert!(lines.is_exhausted());
    assert_eq!(parse_http_payload(&mut lines).value, "");

    let mut lines = Lines::new("\nbody");
    assert_eq!(parse_http_header_lines(&mut lines).unwrap().headers.len(), 0);
    assert_eq!(parse_http_payload(&mut lines).value, "body");

    let mut lines = Lines::new("");
    assert_eq!(parse_http_header_lines(&mut lines), Err(ParseError::MissingHeaderTerminator));
    let mut lines = Lines::new("A: 1\nB: 2");
    assert_eq!(parse_http_header_lines(&mut lines), Err(ParseError::MissingHeaderTerminator));
}

#[test]
fn invalid_utf8_is_an_error() {
    assert_eq!(parse_request(b"GET /\xff HTTP/1.1\n\n"), Err(ParseError::InvalidEncoding));
    assert_eq!(parse_request(&[0xc3]), Err(ParseError::InvalidEncoding));
    assert_eq!(parse_request(&[0xed, 0xa0, 0x80]), Err(ParseError::InvalidEncoding));
    assert_eq!(decode_text(&[0x80]), Err(ParseError::InvalidEncoding));
    assert_eq!(decode_text(&[0xc0, 0xaf]), Err(ParseError::InvalidEncoding));
}

#[test]
fn valid_utf8_is_decoded() {
    assert_eq!(decode_text(b""), Ok(""));
    assert_eq!(decode_text("gr\u{fc}\u{df}e \u{4e16}\u{754c} \u{1f600}".as_bytes()), Ok("gr\u{fc}\u{df}e \u{4e16}\u{754c} \u{1f600}"));
    let request = parse_request("GET /caf\u{e9} HTTP/1.1\nX-Name: J\u{fc}rgen\n\n\u{4e16}\u{754c}".as_bytes()).unwrap();
    assert_eq!(request.request_line.uri, "/caf\u{e9}");
    assert_eq!(header_pairs(&request), vec![(String::from("X-Name"), String::from("J\u{fc}rgen"))]);
    assert_eq!(request.payload.value, "\u{4e16}\u{754c}");
}

#[test]
fn oversized_input_is_truncated() {
    assert_eq!(MAX_REQUEST_SIZE, 1024);
    let head = "GET / HTTP/1.1\n\n";
    let mut raw = Vec::from(head.as_bytes());
    raw.resize(MAX_REQUEST_SIZE, b'x');
    let request = parse_request(&raw).unwrap();
    assert_eq!(request.payload.value.len(), MAX_REQUEST_SIZE - head.len());
    raw.push(b'x');
    assert_eq!(parse_request(&raw), Err(ParseError::Truncated));
    let mut bad = vec![0xffu8; MAX_REQUEST_SIZE + 1];
    assert_eq!(parse_request(&bad), Err(ParseError::Truncated));
    bad.pop();
    assert_eq!(parse_request(&bad), Err(ParseError::InvalidEncoding));
}

#[test]
fn a_header_survives_writing_and_reading() {
    for (key, value) in [("Host", "localhost:8080"), ("X", ""), ("Accept", "a b : c"), ("", "")] {
        let header = custom_http_server::common::HttpHeader::with_str(key, value);
        let line = header.to_string();
        assert_eq!(parse_http_header_line(line.as_str()), Ok(header));
    }
}
