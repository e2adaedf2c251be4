//! The request model and the line-oriented request parser.

use vstd::prelude::*;
use crate::common::{
    outcome, parse_version, HeaderView, HttpHeader, HttpHeaders, HttpPayload, HttpVersion,
    ParseError,
};
use crate::text::{
    after_first_line, chars_of, find_char, first_index_of, first_line, split, split_on, string_of,
    trim_bounds, trimmed, views_of, Lines,
};

verus! {

/// What a request line holds.
pub struct RequestLineView {
    pub method: Seq<char>,
    pub uri: Seq<char>,
    pub version: HttpVersion,
}

/// What a request holds.
pub struct RequestView {
    pub request_line: RequestLineView,
    pub headers: Seq<HeaderView>,
    pub payload: Seq<char>,
}

/// The first line of a request: method, target and version.
#[derive(Debug, PartialEq, Eq)]
pub struct HttpRequestLine {
    pub method: String,
    pub uri: String,
    pub version: HttpVersion,
}

impl View for HttpRequestLine {
    type V = RequestLineView;

    open spec fn view(&self) -> RequestLineView {
        RequestLineView { method: self.method@, uri: self.uri@, version: self.version }
    }
}

/// A request: its first line, its headers and its body.
#[derive(Debug, PartialEq, Eq)]
pub struct HttpRequest {
    pub request_line: HttpRequestLine,
    pub headers: HttpHeaders,
    pub payload: HttpPayload,
}

impl View for HttpRequest {
    type V = RequestView;

    open spec fn view(&self) -> RequestView {
        RequestView {
            request_line: self.request_line@,
            headers: self.headers@,
            payload: self.payload@,
        }
    }
}

/// The request line that a line of text holds. The line is cut at every
/// space; it must give exactly three pieces, the last of them a known
/// version.
pub open spec fn request_line_of(line: Seq<char>) -> Result<RequestLineView, ParseError> {
    let tokens = split_on(line, ' ');
    if tokens.len() != 3 {
        Err(ParseError::MalformedRequestLine)
    } else {
        match parse_version(tokens[2]) {
            Ok(version) => Ok(RequestLineView { method: tokens[0], uri: tokens[1], version }),
            Err(e) => Err(e),
        }
    }
}

/// The request line at the start of a text: that of its first line, and an
/// error where the text is empty.
pub open spec fn leading_request_line(text: Seq<char>) -> Result<RequestLineView, ParseError> {
    if text.len() == 0 {
        Err(ParseError::MalformedRequestLine)
    } else {
        request_line_of(first_line(text))
    }
}

/// The header that a line of text holds: the name is what stands before the
/// first colon, the value what stands behind it, both without surrounding
/// white space. A line without a colon holds no header.
pub open spec fn header_of(line: Seq<char>) -> Result<HeaderView, ParseError> {
    let i = first_index_of(line, ':');
    if 0 <= i < line.len() {
        Ok(
            HeaderView {
                key: trimmed(line.subrange(0, i)),
                value: trimmed(line.subrange(i + 1, line.len() as int)),
            },
        )
    } else {
        Err(ParseError::MalformedHeaderLine)
    }
}

/// The headers at the start of a text, and the text that follows the empty
/// line that closes them. A text that ends before an empty line has no
/// closed header section.
pub open spec fn headers_of(text: Seq<char>) -> Result<(Seq<HeaderView>, Seq<char>), ParseError>
    decreases text.len(),
{
    if text.len() == 0 {
        Err(ParseError::MissingHeaderTerminator)
    } else if first_line(text).len() == 0 {
        Ok((Seq::empty(), after_first_line(text)))
    } else {
        match header_of(first_line(text)) {
            Err(e) => Err(e),
            Ok(h) => match headers_of(after_first_line(text)) {
                Err(e) => Err(e),
                Ok(tail) => Ok((seq![h] + tail.0, tail.1)),
            },
        }
    }
}

/// The request that a text holds: the request line, the headers up to the
/// first empty line, and all that follows that line as the body.
pub open spec fn request_of_text(text: Seq<char>) -> Result<RequestView, ParseError> {
    match leading_request_line(text) {
        Err(e) => Err(e),
        Ok(request_line) => match headers_of(after_first_line(text)) {
            Err(e) => Err(e),
            Ok(section) => Ok(
                RequestView { request_line, headers: section.0, payload: section.1 },
            ),
        },
    }
}

/// Reads a request line from one line of text.
pub fn parse_request_line_text(line: &str) -> (res: Result<HttpRequestLine, ParseError>)
    ensures
        outcome(res) == request_line_of(line@),
{
    let mut tokens = split(line, ' ');
    assert(views_of(tokens@).len() == tokens@.len());
    if tokens.len() != 3 {
        return Err(ParseError::MalformedRequestLine);
    }
    assert(views_of(tokens@)[0] == tokens@[0]@);
    assert(views_of(tokens@)[1] == tokens@[1]@);
    assert(views_of(tokens@)[2] == tokens@[2]@);
    match HttpVersion::parse_str(tokens[2].as_str()) {
        Err(e) => Err(e),
        Ok(version) => {
            let uri = tokens.swap_remove(1);
            let method = tokens.swap_remove(0);
            Ok(HttpRequestLine { method, uri, version })
        },
    }
}

/// Reads the next line as a request line. An exhausted reader holds none.
pub fn parse_http_request_line(string_lines_to_parse: &mut Lines) -> (res: Result<
    HttpRequestLine,
    ParseError,
>)
    ensures
        outcome(res) == leading_request_line(old(string_lines_to_parse)@),
        final(string_lines_to_parse)@ == after_first_line(old(string_lines_to_parse)@),
{
    match string_lines_to_parse.next_line() {
        None => {
            assert(after_first_line(old(string_lines_to_parse)@) =~= old(string_lines_to_parse)@);
            Err(ParseError::MalformedRequestLine)
        },
        Some(line) => parse_request_line_text(line.as_str()),
    }
}

/// Reads a header from one line of text.
pub fn parse_http_header_line(string_to_parse: &str) -> (res: Result<HttpHeader, ParseError>)
    ensures
        outcome(res) == header_of(string_to_parse@),
{
    let chars = chars_of(string_to_parse);
    let n: usize = chars.len();
    assert(chars@.subrange(0, n as int) == chars@);
    let colon: usize = find_char(chars.as_slice(), 0, ':');
    if colon >= n {
        return Err(ParseError::MalformedHeaderLine);
    }
    let name = trim_bounds(chars.as_slice(), 0, colon);
    let value = trim_bounds(chars.as_slice(), colon + 1, n);
    Ok(
        HttpHeader {
            key: string_of(chars.as_slice(), name.0, name.1),
            value: string_of(chars.as_slice(), value.0, value.1),
        },
    )
}

/// Reads header lines up to and including the empty line that closes them.
/// Reading stops at the first line that holds no header.
pub fn parse_http_header_lines(string_lines_to_parse: &mut Lines) -> (res: Result<
    HttpHeaders,
    ParseError,
>)
    ensures
        headers_of(old(string_lines_to_parse)@) == match res {
            Ok(headers) => Ok::<(Seq<HeaderView>, Seq<char>), ParseError>(
                (headers@, final(string_lines_to_parse)@),
            ),
            Err(e) => Err(e),
        },
{
    let mut headers = HttpHeaders::new(5);
    let ghost start = string_lines_to_parse@;
    assert(headers@ + Seq::<HeaderView>::empty() =~= headers@);
    loop
        invariant
            start == old(string_lines_to_parse)@,
            match headers_of(string_lines_to_parse@) {
                Ok(tail) => headers_of(start) == Ok::<(Seq<HeaderView>, Seq<char>), ParseError>(
                    (headers@ + tail.0, tail.1),
                ),
                Err(e) => headers_of(start) == Err::<(Seq<HeaderView>, Seq<char>), ParseError>(e),
            },
        decreases string_lines_to_parse@.len(),
    {
        let ghost before = headers@;
        match string_lines_to_parse.next_line() {
            None => {
                return Err(ParseError::MissingHeaderTerminator);
            },
            Some(line) => {
                if line.as_str().is_empty() {
                    assert(before + Seq::<HeaderView>::empty() == before);
                    return Ok(headers);
                }
                match parse_http_header_line(line.as_str()) {
                    Err(e) => {
                        return Err(e);
                    },
                    Ok(header) => {
                        headers = headers.add(header);
                        proof {
                            match headers_of(string_lines_to_parse@) {
                                Ok(tail) => {
                                    assert(before + (seq![header@] + tail.0) =~= before.push(
                                        header@,
                                    ) + tail.0);
                                },
                                Err(e) => {},
                            }
                        }
                    },
                }
            },
        }
    }
}

/// Reads all that is left as the body. Where nothing is left the body is
/// empty.
pub fn parse_http_payload(string_lines_to_parse: &mut Lines) -> (payload: HttpPayload)
    ensures
        payload@ == old(string_lines_to_parse)@,
        final(string_lines_to_parse)@.len() == 0,
{
    HttpPayload { value: string_lines_to_parse.take_rest() }
}

/// Reads a request from its text.
pub fn parse_stream_buffer(stream_buffer: &str) -> (res: Result<HttpRequest, ParseError>)
    ensures
        outcome(res) == request_of_text(stream_buffer@),
{
    let mut buffer_lines = Lines::new(stream_buffer);
    let request_line = match parse_http_request_line(&mut buffer_lines) {
        Ok(request_line) => request_line,
        Err(e) => {
            return Err(e);
        },
    };
    let headers = match parse_http_header_lines(&mut buffer_lines) {
        Ok(headers) => headers,
        Err(e) => {
            return Err(e);
        },
    };
    let payload = parse_http_payload(&mut buffer_lines);
    Ok(HttpRequest { request_line, headers, payload })
}

/// The most bytes that a request may hold: what one read brings in.
pub const MAX_REQUEST_SIZE: usize = 1024;

/// The request that raw bytes hold. Bytes beyond `MAX_REQUEST_SIZE` mean that
/// one read could not hold the request; the bytes must be UTF-8; the text
/// that they encode is then read as `request_of_text` says.
pub open spec fn request_of_bytes(bytes: Seq<u8>) -> Result<RequestView, ParseError> {
    if bytes.len() > MAX_REQUEST_SIZE {
        Err(ParseError::Truncated)
    } else if !vstd::utf8::valid_utf8(bytes) {
        Err(ParseError::InvalidEncoding)
    } else {
        request_of_text(vstd::utf8::decode_utf8(bytes))
    }
}

/// `std::str::from_utf8` hands the bytes back as a string slice where they
/// are well-formed UTF-8, and fails on all other input; the slice is made of
/// the very bytes given.
#[verifier::external_body]
fn utf8_text(bytes: &[u8]) -> (text: Option<&str>)
    ensures
        text is Some <==> vstd::utf8::valid_utf8(bytes@),
        text is Some ==> vstd::utf8::encode_utf8(text->0@) == bytes@,
{
    match std::str::from_utf8(bytes) {
        Ok(text) => Some(text),
        Err(_) => None,
    }
}

/// Decodes bytes as UTF-8 text.
pub fn decode_text(bytes: &[u8]) -> (res: Result<&str, ParseError>)
    ensures
        match res {
            Ok(text) => vstd::utf8::valid_utf8(bytes@) && text@ == vstd::utf8::decode_utf8(
                bytes@,
            ),
            Err(e) => !vstd::utf8::valid_utf8(bytes@) && e == ParseError::InvalidEncoding,
        },
{
    match utf8_text(bytes) {
        Some(text) => {
            proof {
                vstd::utf8::encode_utf8_decode_utf8(text@);
            }
            Ok(text)
        },
        None => Err(ParseError::InvalidEncoding),
    }
}

/// Reads a request from the raw bytes of one read.
pub fn parse_request(raw: &[u8]) -> (res: Result<HttpRequest, ParseError>)
    ensures
        outcome(res) == request_of_bytes(raw@),
{
    if raw.len() > MAX_REQUEST_SIZE {
        return Err(ParseError::Truncated);
    }
    match decode_text(raw) {
        Err(e) => Err(e),
        Ok(text) => parse_stream_buffer(text),
    }
}

/// Whether one of the lines of a text is empty.
pub open spec fn has_empty_line(text: Seq<char>) -> bool
    decreases text.len(),
{
    text.len() > 0 && (first_line(text).len() == 0 || has_empty_line(after_first_line(text)))
}

/// A header section is read only from a text that holds an empty line.
/// Without one the result is an error: `MalformedHeaderLine` where a line
/// holds no colon, `MissingHeaderTerminator` where every line holds one.
pub proof fn lemma_headers_need_empty_line(text: Seq<char>)
    requires
        !has_empty_line(text),
    ensures
        headers_of(text) == Err::<(Seq<HeaderView>, Seq<char>), ParseError>(
            ParseError::MissingHeaderTerminator,
        ) || headers_of(text) == Err::<(Seq<HeaderView>, Seq<char>), ParseError>(
            ParseError::MalformedHeaderLine,
        ),
    decreases text.len(),
{
    if text.len() > 0 {
        lemma_headers_need_empty_line(after_first_line(text));
    }
}

/// A request whose text holds no empty line is never read: the result is an
/// error.
pub proof fn lemma_request_needs_empty_line(text: Seq<char>)
    requires
        !has_empty_line(text),
    ensures
        request_of_text(text) is Err,
{
    if text.len() > 0 {
        lemma_headers_need_empty_line(after_first_line(text));
    }
}

/// Whether every line of a text holds a colon.
pub open spec fn every_line_holds_colon(text: Seq<char>) -> bool
    decreases text.len(),
{
    text.len() > 0 ==> header_of(first_line(text)) is Ok && every_line_holds_colon(
        after_first_line(text),
    )
}

/// Header lines that are each well-formed, but are not closed by an empty
/// line, give `MissingHeaderTerminator`.
pub proof fn lemma_unclosed_headers(text: Seq<char>)
    requires
        !has_empty_line(text),
        every_line_holds_colon(text),
    ensures
        headers_of(text) == Err::<(Seq<HeaderView>, Seq<char>), ParseError>(
            ParseError::MissingHeaderTerminator,
        ),
    decreases text.len(),
{
    if text.len() > 0 {
        lemma_unclosed_headers(after_first_line(text));
    }
}

/// A request with a well-formed first line and well-formed header lines, but
/// without the empty line that closes the headers, gives
/// `MissingHeaderTerminator`.
pub proof fn lemma_missing_terminator(text: Seq<char>)
    requires
        leading_request_line(text) is Ok,
        !has_empty_line(after_first_line(text)),
        every_line_holds_colon(after_first_line(text)),
    ensures
        request_of_text(text) == Err::<RequestView, ParseError>(
            ParseError::MissingHeaderTerminator,
        ),
{
    lemma_unclosed_headers(after_first_line(text));
}

/// Reading the wire form of a header gives the header back, where its name
/// holds no colon and neither the name nor the value begins or ends with
/// white space.
pub proof fn lemma_header_round_trip(h: HeaderView)
    requires
        forall|i: int| 0 <= i < h.key.len() ==> h.key[i] != ':',
        trimmed(h.key) == h.key,
        trimmed(h.value) == h.value,
    ensures
        header_of(crate::common::header_text(h)) == Ok::<HeaderView, ParseError>(h),
{
    let line = crate::common::header_text(h);
    let colon = h.key.len() as int;
    assert(line[colon] == ':');
    assert forall|i: int| 0 <= i < colon implies line[i] != ':' by {
        assert(line[i] == h.key[i]);
    }
    crate::text::lemma_first_index_is(line, ':', colon);
    assert(line.subrange(0, colon) =~= h.key);
    let rest = line.subrange(colon + 1, line.len() as int);
    assert(rest =~= seq![' '] + h.value);
    assert(crate::text::is_space(rest[0]));
    assert(rest.drop_first() =~= h.value);
    crate::text::lemma_trim_len(h.value);
    assert(crate::text::trim_start(rest) == crate::text::trim_start(h.value));
}

} // verus!
