use custom_http_server::common::{HttpVersion, ParseError};
use custom_http_server::handler::{
    build_error_response, describe_error, handle_request, handle_request_at, reply, respond,
};
use custom_http_server::request::parse_request;

const DATE: &str = "Sun, 06 Nov 1994 08:49:37 GMT";

fn all_errors() -> Vec<ParseError> {
    vec![
        ParseError::UnknownVersion,
        ParseError::MalformedRequestLine,
        ParseError::MalformedHeaderLine,
        ParseError::MissingHeaderTerminator,
        ParseError::InvalidEncoding,
        ParseError::Truncated,
    ]
}

#[test]
fn a_request_is_answered_with_the_standard_page() {
    let response = respond(b"GET /index HTTP/1.1\nHost: localhost:8080\n\n", String::from(DATE));
    assert_eq!(
        response.to_string(),
        "HTTP/1.1 200 OK\nDate: Sun, 06 Nov 1994 08:49:37 GMT\nServer: CustomHttpServer/0.1\n\
         Content-Length: 47\nContent-Type: text/html\nConnection: close\n\n\
         <html><body><p>Hello, client!</p></body></html>"
    );
}

#[test]
fn the_answer_echoes_the_version_of_the_request() {
    for version in [
        HttpVersion::v0_9(),
        HttpVersion::v1_0(),
        HttpVersion::v1_1(),
        HttpVersion::v2_0(),
        HttpVersion::v3_0(),
    ] {
        let raw = format!("GET / {}\r\n\r\n", version.to_string());
        let response = respond(raw.as_bytes(), String::from(DATE));
        assert_eq!(response.status_line.version, version);
        assert_eq!(response.status_line.status.code, 200);
    }
}

#[test]
fn a_malformed_request_is_answered_with_400() {
    let cases: Vec<(&[u8], ParseError)> = vec![
        (b"", ParseError::MalformedRequestLine),
        (b"GET /\n\n", ParseError::MalformedRequestLine),
        (b"GET / HTTP/1.5\n\n", ParseError::UnknownVersion),
        (b"GET / HTTP/1.1\nHost\n\n", ParseError::MalformedHeaderLine),
        (b"GET / HTTP/1.1\nHost: a\n", ParseError::MissingHeaderTerminator),
        (b"GET / HTTP/1.1\n\xfe\n\n", ParseError::InvalidEncoding),
    ];
    for (raw, error) in cases {
        let response = respond(raw, String::from(DATE));
        assert_eq!(response.status_line.to_string(), "HTTP/1.0 400 Bad Request");
        assert_eq!(response.payload.value, describe_error(error));
        assert_eq!(response.headers.headers[3].value, "text/plain");
        assert_eq!(response.headers.headers[4].to_string(), "Connection: close");
        assert_eq!(
            response.headers.headers[2].value,
            response.payload.value.len().to_string()
        );
    }
}

#[test]
fn an_oversized_request_is_answered_with_413() {
    let raw = vec![b'a'; 1025];
    let response = respond(&raw, String::from(DATE));
    assert_eq!(
        response.to_string(),
        "HTTP/1.0 413 Payload Too Large\nDate: Sun, 06 Nov 1994 08:49:37 GMT\n\
         Server: CustomHttpServer/0.1\nContent-Length: 19\nContent-Type: text/plain\n\
         Connection: close\n\nrequest is too long"
    );
}

#[test]
fn error_messages() {
    assert_eq!(describe_error(ParseError::UnknownVersion), "unknown HTTP protocol version");
    assert_eq!(describe_error(ParseError::MalformedRequestLine), "malformed request line");
    assert_eq!(describe_error(ParseError::MalformedHeaderLine), "malformed header line");
    assert_eq!(
        describe_error(ParseError::MissingHeaderTerminator),
        "missing empty line after the headers"
    );
    assert_eq!(describe_error(ParseError::InvalidEncoding), "request is not valid UTF-8");
    assert_eq!(describe_error(ParseError::Truncated), "request is too long");
}

#[test]
fn error_responses_are_in_the_4xx_class() {
    for error in all_errors() {
        let response = build_error_response(error, String::from(DATE));
        let code = response.status_line.status.code;
        assert!((400..500).contains(&code));
        assert_eq!(code == 413, error == ParseError::Truncated);
        assert_eq!(response.status_line.version, HttpVersion::v1_0());
        assert_eq!(response.headers.headers.len(), 5);
        assert_eq!(response.headers.headers[0].value, DATE);
    }
}

#[test]
fn answers_do_not_depend_on_each_other() {
    let first = b"GET /one HTTP/1.1\nHost: a\n\n";
    let second = b"broken";
    let alone_first = respond(first, String::from(DATE)).to_string();
    let alone_second = respond(second, String::from(DATE)).to_string();
    for _ in 0..3 {
        assert_eq!(respond(second, String::from(DATE)).to_string(), alone_second);
        assert_eq!(respond(first, String::from(DATE)).to_string(), alone_first);
    }
    assert_ne!(alone_first, alone_second);
}

#[test]
fn handle_request_gives_the_bytes_to_send() {
    let reply = handle_request(b"GET / HTTP/1.0\n\n").unwrap();
    assert!(reply.starts_with("HTTP/1.0 200 OK\nDate: "));
    assert!(reply.ends_with(
        " GMT\nServer: CustomHttpServer/0.1\nContent-Length: 47\nContent-Type: text/html\n\
         Connection: close\n\n<html><body><p>Hello, client!</p></body></html>"
    ));
    let reply = handle_request(b"nonsense").unwrap();
    assert!(reply.starts_with("HTTP/1.0 400 Bad Request\nDate: "));
    assert!(reply.ends_with("\n\nmalformed request line"));
}

#[test]
fn reply_answers_what_parsing_gave() {
    let parsed = parse_request(b"GET / HTTP/2.0\n\n");
    let response = reply(parsed, String::from(DATE));
    assert_eq!(response.status_line.to_string(), "HTTP/2.0 200 OK");
    assert_eq!(response.payload.value, "<html><body><p>Hello, client!</p></body></html>");
    let response = reply(Err(ParseError::InvalidEncoding), String::from(DATE));
    assert_eq!(response.status_line.to_string(), "HTTP/1.0 400 Bad Request");
    assert_eq!(response.payload.value, "request is not valid UTF-8");
    for raw in [&b"GET / HTTP/1.1\n\n"[..], &b"x"[..], &b""[..]] {
        assert_eq!(
            reply(parse_request(raw), String::from(DATE)),
            respond(raw, String::from(DATE))
        );
    }
}

#[test]
fn handle_request_at_dates_with_the_reading() {
    let raw = b"GET /index HTTP/1.1\nHost: localhost:8080\n\n";
    assert_eq!(
        handle_request_at(raw, Some(784111777)),
        Some(respond(raw, String::from(DATE)).to_string())
    );
    assert_eq!(
        handle_request_at(b"broken", Some(0)),
        Some(String::from(
            "HTTP/1.0 400 Bad Request\nDate: Thu, 01 Jan 1970 00:00:00 GMT\n\
             Server: CustomHttpServer/0.1\nContent-Length: 22\nContent-Type: text/plain\n\
             Connection: close\n\nmalformed request line"
        ))
    );
}

#[test]
fn handle_request_at_needs_a_reading_in_range() {
    let raw = b"GET / HTTP/1.1\n\n";
    assert_eq!(handle_request_at(raw, None), None);
    assert_eq!(handle_request_at(raw, Some(253402300800)), None);
    assert_eq!(handle_request_at(raw, Some(u64::MAX)), None);
    assert!(handle_request_at(raw, Some(253402300799)).is_some());
}
