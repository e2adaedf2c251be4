//! The response model, its wire form, and the builder of the responses that
//! this server gives.

use vstd::prelude::*;
use crate::common::{headers_text, HeaderView, HttpHeaders, HttpPayload, HttpVersion};
use crate::text::{decimal, decimal_string, signed_decimal, signed_decimal_string};

verus! {

/// What a status holds.
pub struct StatusView {
    pub code: int,
    pub reason: Seq<char>,
}

/// What a response holds.
pub struct ResponseView {
    pub version: HttpVersion,
    pub status: StatusView,
    pub headers: Seq<HeaderView>,
    pub payload: Seq<char>,
}

/// The wire form of a status: the code, a space, the reason.
pub open spec fn status_text(status: StatusView) -> Seq<char> {
    signed_decimal(status.code) + seq![' '] + status.reason
}

/// The wire form of a status line: the version, a space, the status.
pub open spec fn status_line_text(version: HttpVersion, status: StatusView) -> Seq<char> {
    version.wire_text() + seq![' '] + status_text(status)
}

/// The wire form of a response: the status line, the headers on the lines
/// that follow it, an empty line, the body.
pub open spec fn response_text(response: ResponseView) -> Seq<char> {
    status_line_text(response.version, response.status) + seq!['\n'] + headers_text(
        response.headers,
    ) + seq!['\n', '\n'] + response.payload
}

/// A status code with the phrase that explains it.
#[derive(Debug, PartialEq, Eq)]
pub struct HttpStatus {
    pub code: i32,
    pub reason: String,
}

impl View for HttpStatus {
    type V = StatusView;

    open spec fn view(&self) -> StatusView {
        StatusView { code: self.code as int, reason: self.reason@ }
    }
}

impl HttpStatus {
    /// The wire form of this status.
    pub fn to_string(&self) -> (text: String)
        ensures
            text@ == status_text(self@),
    {
        let mut text = signed_decimal_string(self.code as i64);
        text.push(' ');
        text.append(self.reason.as_str());
        assert(text@ =~= status_text(self@));
        text
    }
}

/// The first line of a response.
#[derive(Debug, PartialEq, Eq)]
pub struct HttpStatusLine {
    pub version: HttpVersion,
    pub status: HttpStatus,
}

impl HttpStatusLine {
    /// The wire form of this status line.
    pub fn to_string(&self) -> (text: String)
        ensures
            text@ == status_line_text(self.version, self.status@),
    {
        let mut text = self.version.to_string();
        text.push(' ');
        let status = self.status.to_string();
        text.append(status.as_str());
        assert(text@ =~= status_line_text(self.version, self.status@));
        text
    }
}

/// A response: its status line, its headers and its body.
#[derive(Debug, PartialEq, Eq)]
pub struct HttpResponse {
    pub status_line: HttpStatusLine,
    pub headers: HttpHeaders,
    pub payload: HttpPayload,
}

impl View for HttpResponse {
    type V = ResponseView;

    open spec fn view(&self) -> ResponseView {
        ResponseView {
            version: self.status_line.version,
            status: self.status_line.status@,
            headers: self.headers@,
            payload: self.payload@,
        }
    }
}

impl HttpResponse {
    /// The wire form of this response.
    pub fn to_string(&self) -> (text: String)
        ensures
            text@ == response_text(self@),
    {
        let mut text = self.status_line.to_string();
        text.push('\n');
        let headers = self.headers.to_string();
        text.append(headers.as_str());
        text.push('\n');
        text.push('\n');
        text.append(self.payload.value.as_str());
        assert(text@ =~= response_text(self@));
        text
    }
}

/// The number of bytes that a text takes in UTF-8.
pub open spec fn byte_len(text: Seq<char>) -> nat {
    vstd::utf8::encode_utf8(text).len()
}

/// The headers of every response, in their fixed order: the date, the
/// server's name, the body's length in bytes, the body's type, and the notice
/// that the connection closes.
pub open spec fn standard_headers(
    body: Seq<char>,
    content_type: Seq<char>,
    date: Seq<char>,
) -> Seq<HeaderView> {
    seq![
        HeaderView { key: "Date"@, value: date },
        HeaderView { key: "Server"@, value: "CustomHttpServer/0.1"@ },
        HeaderView { key: "Content-Length"@, value: decimal(byte_len(body)) },
        HeaderView { key: "Content-Type"@, value: content_type },
        HeaderView { key: "Connection"@, value: "close"@ },
    ]
}

/// The response with the given status and body, and the standard headers.
pub open spec fn response_with(
    version: HttpVersion,
    code: int,
    reason: Seq<char>,
    body: Seq<char>,
    content_type: Seq<char>,
    date: Seq<char>,
) -> ResponseView {
    ResponseView {
        version,
        status: StatusView { code, reason },
        headers: standard_headers(body, content_type, date),
        payload: body,
    }
}

/// The response to a request that was served: status 200, `OK`.
pub open spec fn ok_response(
    version: HttpVersion,
    body: Seq<char>,
    content_type: Seq<char>,
    date: Seq<char>,
) -> ResponseView {
    response_with(version, 200, "OK"@, body, content_type, date)
}

/// Builds the response with the given status and body. `date` is the value of
/// the `Date` header.
pub fn build_response_with(
    version: HttpVersion,
    code: i32,
    reason: &str,
    body: String,
    content_type: String,
    date: String,
) -> (response: HttpResponse)
    ensures
        response@ == response_with(version, code as int, reason@, body@, content_type@, date@),
{
    let length: usize = body.as_str().as_bytes().len();
    let headers = HttpHeaders::new(5)
        .add_string("Date", date)
        .add_str("Server", "CustomHttpServer/0.1")
        .add_string("Content-Length", decimal_string(length as u64))
        .add_string("Content-Type", content_type)
        .add_str("Connection", "close");
    assert(headers@ =~= standard_headers(body@, content_type@, date@));
    HttpResponse {
        status_line: HttpStatusLine {
            version,
            status: HttpStatus { code, reason: String::from_str(reason) },
        },
        headers,
        payload: HttpPayload { value: body },
    }
}

/// Builds the response to a request that was served. `date` is the value of
/// the `Date` header.
pub fn build_response(
    version: HttpVersion,
    body: String,
    content_type: String,
    date: String,
) -> (response: HttpResponse)
    ensures
        response@ == ok_response(version, body@, content_type@, date@),
{
    build_response_with(version, 200, "OK", body, content_type, date)
}

/// Whether `hs` holds the header `key: value`, and no other header named
/// `key`.
pub open spec fn holds_once(hs: Seq<HeaderView>, key: Seq<char>, value: Seq<char>) -> bool {
    exists|i: int|
        0 <= i < hs.len() && #[trigger] hs[i] == (HeaderView { key, value }) && forall|j: int|
            0 <= j < hs.len() && #[trigger] hs[j].key == key ==> j == i
}

/// Among the names of the standard headers, `Connection` and
/// `Content-Length` each differ from every other.
proof fn lemma_standard_names_differ()
    ensures
        "Date"@ != "Connection"@,
        "Server"@ != "Connection"@,
        "Content-Length"@ != "Connection"@,
        "Content-Type"@ != "Connection"@,
        "Date"@ != "Content-Length"@,
        "Server"@ != "Content-Length"@,
        "Content-Type"@ != "Content-Length"@,
{
    reveal_strlit("Date");
    reveal_strlit("Server");
    reveal_strlit("Content-Length");
    reveal_strlit("Content-Type");
    reveal_strlit("Connection");
    assert("Date"@.len() == 4);
    assert("Server"@.len() == 6);
    assert("Connection"@.len() == 10);
    assert("Content-Length"@.len() == 14);
    assert("Content-Type"@.len() == 12);
}

/// Every response with the standard headers announces exactly once that the
/// connection closes, and states exactly once the length of its body, which
/// is the number of bytes of the body, for every body, the empty one
/// included.
pub proof fn lemma_standard_headers(
    version: HttpVersion,
    code: int,
    reason: Seq<char>,
    body: Seq<char>,
    content_type: Seq<char>,
    date: Seq<char>,
)
    ensures
        holds_once(
            response_with(version, code, reason, body, content_type, date).headers,
            "Connection"@,
            "close"@,
        ),
        holds_once(
            response_with(version, code, reason, body, content_type, date).headers,
            "Content-Length"@,
            decimal(byte_len(body)),
        ),
        response_with(version, code, reason, body, content_type, date).payload == body,
        body.len() == 0 ==> decimal(byte_len(body)) == seq!['0'],
{
    lemma_standard_names_differ();
    let hs = response_with(version, code, reason, body, content_type, date).headers;
    assert(hs[4] == (HeaderView { key: "Connection"@, value: "close"@ }));
    assert(hs[2] == (HeaderView { key: "Content-Length"@, value: decimal(byte_len(body)) }));
    if body.len() == 0 {
        assert(vstd::utf8::encode_utf8(body) =~= Seq::<u8>::empty());
    }
}

/// The first second, counted from the start of 1970, that an HTTP date
/// cannot express: the start of the year 10000.
pub const DATE_LIMIT: u64 = 253402300800;

/// The HTTP date of the second `secs` after the start of 1970, as
/// `httpdate::fmt_http_date` writes it.
pub uninterp spec fn http_date_text(secs: u64) -> Seq<char>;

/// `httpdate::fmt_http_date` writes a point in time as an HTTP date. It
/// panics on times before 1970 and from the year 10000 on; seconds counted
/// from 1970 cannot give the first, and `requires` leaves the second out.
/// What it writes depends on the second alone.
#[verifier::external_body]
fn fmt_http_date(secs: u64) -> (text: String)
    requires
        secs < DATE_LIMIT,
    ensures
        text@ == http_date_text(secs),
{
    httpdate::fmt_http_date(std::time::UNIX_EPOCH + std::time::Duration::from_secs(secs))
}

/// `std::time::SystemTime::now` reads the system clock; the result is given
/// in whole seconds since the start of 1970, and is `None` where the clock
/// stands before that. Nothing is known of the value.
#[verifier::external_body]
pub(crate) fn unix_time_now() -> (secs: Option<u64>) {
    match std::time::SystemTime::now().duration_since(std::time::UNIX_EPOCH) {
        Ok(elapsed) => Some(elapsed.as_secs()),
        Err(_) => None,
    }
}

/// The HTTP date of the second `secs` after the start of 1970, where that
/// second lies before the year 10000.
pub fn http_date(secs: u64) -> (date: Option<String>)
    ensures
        date is Some <==> secs < DATE_LIMIT,
        date is Some ==> date->0@ == http_date_text(secs),
{
    if secs < DATE_LIMIT {
        Some(fmt_http_date(secs))
    } else {
        None
    }
}

/// The HTTP date of a reading of the clock. There is none where the reading
/// failed or lies beyond what an HTTP date can express.
pub fn http_date_of_reading(reading: Option<u64>) -> (date: Option<String>)
    ensures
        date is Some <==> reading is Some && reading->0 < DATE_LIMIT,
        date is Some ==> date->0@ == http_date_text(reading->0),
{
    match reading {
        Some(secs) => http_date(secs),
        None => None,
    }
}

/// The HTTP date of the present moment, if the clock gives one that an HTTP
/// date can express.
pub fn current_http_date() -> (date: Option<String>)
    ensures
        date is Some ==> exists|secs: u64| secs < DATE_LIMIT && date->0@ == http_date_text(secs),
{
    http_date_of_reading(unix_time_now())
}

/// The response to a request that was served, dated with a reading of the
/// clock. There is none where the reading failed or lies beyond what an HTTP
/// date can express.
pub open spec fn response_at(
    version: HttpVersion,
    body: Seq<char>,
    content_type: Seq<char>,
    reading: Option<u64>,
) -> Option<ResponseView> {
    match reading {
        Some(secs) => if secs < DATE_LIMIT {
            Some(ok_response(version, body, content_type, http_date_text(secs)))
        } else {
            None
        },
        None => None,
    }
}

/// Builds the response to a request that was served, dated with a reading of
/// the clock: whole seconds since the start of 1970, or `None` where the
/// clock could not be read.
pub fn create_response_at(
    http_version: HttpVersion,
    body: String,
    content_type: String,
    reading: Option<u64>,
) -> (response: Option<HttpResponse>)
    ensures
        response is Some <==> response_at(http_version, body@, content_type@, reading) is Some,
        response is Some ==> response->0@ == response_at(
            http_version,
            body@,
            content_type@,
            reading,
        )->0,
{
    match http_date_of_reading(reading) {
        Some(date) => Some(build_response(http_version, body, content_type, date)),
        None => None,
    }
}

/// Builds the response to a request that was served, dated with the present
/// moment. There is no response where the clock gives no date.
pub fn create_response(
    http_version: HttpVersion,
    body: String,
    content_type: String,
) -> (response: Option<HttpResponse>)
    ensures
        response is Some ==> exists|secs: u64|
            secs < DATE_LIMIT && response->0@ == ok_response(
                http_version,
                body@,
                content_type@,
                #[trigger] http_date_text(secs),
            ),
{
    create_response_at(http_version, body, content_type, unix_time_now())
}

/// The body that this server gives to every request that it serves, and the
/// type of that body.
pub fn get_payload_content_and_type() -> (content: (String, String))
    ensures
        content.0@ == "<html><body><p>Hello, client!</p></body></html>"@,
        content.1@ == "text/html"@,
{
    (
        String::from_str("<html><body><p>Hello, client!</p></body></html>"),
        String::from_str("text/html"),
    )
}

/// The wire form of a response with the standard headers, written out: the
/// status line, the five header lines in their order, an empty line, the
/// body. The line `Connection: close` is the last of the header lines, and
/// the line before the content type gives the body's length in bytes.
pub proof fn lemma_response_text(
    version: HttpVersion,
    code: int,
    reason: Seq<char>,
    body: Seq<char>,
    content_type: Seq<char>,
    date: Seq<char>,
)
    ensures
        response_text(response_with(version, code, reason, body, content_type, date))
            == status_line_text(version, StatusView { code, reason }) + seq!['\n'] + ("Date"@
            + seq![':', ' '] + date) + seq!['\n'] + ("Server"@ + seq![':', ' ']
            + "CustomHttpServer/0.1"@) + seq!['\n'] + ("Content-Length"@ + seq![':', ' '] + decimal(
            byte_len(body),
        )) + seq!['\n'] + ("Content-Type"@ + seq![':', ' '] + content_type) + seq!['\n'] + (
        "Connection"@ + seq![':', ' '] + "close"@) + seq!['\n', '\n'] + body,
{
    let hs = standard_headers(body, content_type, date);
    let h4 = hs.drop_last();
    let h3 = h4.drop_last();
    let h2 = h3.drop_last();
    let h1 = h2.drop_last();
    assert(h1.len() == 1 && h1[0] == hs[0]);
    assert(h2.last() == hs[1]);
    assert(h3.last() == hs[2]);
    assert(h4.last() == hs[3]);
    assert(headers_text(h1) == crate::common::header_text(hs[0]));
    assert(headers_text(h2) == headers_text(h1) + seq!['\n'] + crate::common::header_text(hs[1]));
    assert(headers_text(h3) == headers_text(h2) + seq!['\n'] + crate::common::header_text(hs[2]));
    assert(headers_text(h4) == headers_text(h3) + seq!['\n'] + crate::common::header_text(hs[3]));
    assert(headers_text(hs) == headers_text(h4) + seq!['\n'] + crate::common::header_text(hs[4]));
}

} // verus!
