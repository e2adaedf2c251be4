//! What one connection is answered with: the response to the bytes that were
//! read from it. A request that cannot be read is answered with an error
//! response; it never stops the worker that handles it. A request in any of
//! the five known versions is served, and answered in its own version: the
//! version's support flag is not consulted.

use vstd::prelude::*;
use crate::common::{outcome, HttpVersion, ParseError};
use crate::request::{parse_request, request_of_bytes, HttpRequest, RequestView};
use crate::response::{
    build_response, build_response_with, get_payload_content_and_type, http_date_of_reading,
    http_date_text, ok_response, response_text, response_with, unix_time_now, HttpResponse,
    ResponseView, DATE_LIMIT,
};

verus! {

/// The status code that answers a request that could not be read: 413 for one
/// that is too long, 400 for every other fault.
pub open spec fn error_code(error: ParseError) -> int {
    if error == ParseError::Truncated {
        413
    } else {
        400
    }
}

/// The phrase that goes with `error_code`.
pub open spec fn error_reason(error: ParseError) -> Seq<char> {
    if error == ParseError::Truncated {
        "Payload Too Large"@
    } else {
        "Bad Request"@
    }
}

/// One line that says what was wrong with a request.
pub open spec fn error_message(error: ParseError) -> Seq<char> {
    match error {
        ParseError::UnknownVersion => "unknown HTTP protocol version"@,
        ParseError::MalformedRequestLine => "malformed request line"@,
        ParseError::MalformedHeaderLine => "malformed header line"@,
        ParseError::MissingHeaderTerminator => "missing empty line after the headers"@,
        ParseError::InvalidEncoding => "request is not valid UTF-8"@,
        ParseError::Truncated => "request is too long"@,
    }
}

/// The response to a request that could not be read. It is given in
/// HTTP/1.0, with the fault's message as plain text.
pub open spec fn error_response(error: ParseError, date: Seq<char>) -> ResponseView {
    response_with(
        HttpVersion::spec_v1_0(),
        error_code(error),
        error_reason(error),
        error_message(error),
        "text/plain"@,
        date,
    )
}

/// The response to what reading a request gave: the standard page, in the
/// request's own version, for a request, and an error response for a fault.
pub open spec fn reply_for(parsed: Result<RequestView, ParseError>, date: Seq<char>) -> ResponseView {
    match parsed {
        Ok(request) => ok_response(
            request.request_line.version,
            "<html><body><p>Hello, client!</p></body></html>"@,
            "text/html"@,
            date,
        ),
        Err(error) => error_response(error, date),
    }
}

/// The response to the bytes of one read. It depends on these bytes and on
/// the date alone, and on nothing that another connection sent or received.
pub open spec fn reply_to(raw: Seq<u8>, date: Seq<char>) -> ResponseView {
    reply_for(request_of_bytes(raw), date)
}

/// One line that says what was wrong with a request.
pub fn describe_error(error: ParseError) -> (message: String)
    ensures
        message@ == error_message(error),
{
    match error {
        ParseError::UnknownVersion => String::from_str("unknown HTTP protocol version"),
        ParseError::MalformedRequestLine => String::from_str("malformed request line"),
        ParseError::MalformedHeaderLine => String::from_str("malformed header line"),
        ParseError::MissingHeaderTerminator => String::from_str(
            "missing empty line after the headers",
        ),
        ParseError::InvalidEncoding => String::from_str("request is not valid UTF-8"),
        ParseError::Truncated => String::from_str("request is too long"),
    }
}

/// Builds the response to a request that could not be read.
pub fn build_error_response(error: ParseError, date: String) -> (response: HttpResponse)
    ensures
        response@ == error_response(error, date@),
{
    let body = describe_error(error);
    let content_type = String::from_str("text/plain");
    match error {
        ParseError::Truncated => build_response_with(
            HttpVersion::v1_0(),
            413,
            "Payload Too Large",
            body,
            content_type,
            date,
        ),
        _ => build_response_with(
            HttpVersion::v1_0(),
            400,
            "Bad Request",
            body,
            content_type,
            date,
        ),
    }
}

/// Builds the response to what reading a request gave. `date` is the value
/// of the `Date` header.
pub fn reply(parsed: Result<HttpRequest, ParseError>, date: String) -> (response: HttpResponse)
    ensures
        response@ == reply_for(outcome(parsed), date@),
{
    match parsed {
        Ok(request) => {
            let content = get_payload_content_and_type();
            build_response(request.request_line.version, content.0, content.1, date)
        },
        Err(error) => build_error_response(error, date),
    }
}

/// Builds the response to the bytes of one read. `date` is the value of the
/// `Date` header.
pub fn respond(raw: &[u8], date: String) -> (response: HttpResponse)
    ensures
        response@ == reply_to(raw@, date@),
{
    reply(parse_request(raw), date)
}

/// The bytes to send back for the bytes of one read, dated with a reading of
/// the clock. There are none where the reading failed or lies beyond what an
/// HTTP date can express.
pub open spec fn reply_text_at(raw: Seq<u8>, reading: Option<u64>) -> Option<Seq<char>> {
    match reading {
        Some(secs) => if secs < DATE_LIMIT {
            Some(response_text(reply_to(raw, http_date_text(secs))))
        } else {
            None
        },
        None => None,
    }
}

/// The bytes to send back for the bytes of one read, dated with a reading of
/// the clock: whole seconds since the start of 1970, or `None` where the
/// clock could not be read.
pub fn handle_request_at(raw: &[u8], reading: Option<u64>) -> (reply: Option<String>)
    ensures
        reply is Some <==> reply_text_at(raw@, reading) is Some,
        reply is Some ==> reply->0@ == reply_text_at(raw@, reading)->0,
{
    match http_date_of_reading(reading) {
        Some(date) => Some(respond(raw, date).to_string()),
        None => None,
    }
}

/// The bytes to send back for the bytes of one read, dated with the present
/// moment. There are none where the clock gives no date.
pub fn handle_request(raw: &[u8]) -> (reply: Option<String>)
    ensures
        reply is Some ==> exists|secs: u64|
            secs < DATE_LIMIT && reply->0@ == response_text(
                reply_to(raw@, #[trigger] http_date_text(secs)),
            ),
{
    handle_request_at(raw, unix_time_now())
}

} // verus!
