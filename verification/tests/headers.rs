use custom_http_server::common::{HttpHeader, HttpHeaders, HttpPayload};

#[test]
fn header_constructors() {
    let h = HttpHeader::with_int("Content-Length", 47);
    assert_eq!((h.key.as_str(), h.value.as_str()), ("Content-Length", "47"));
    let h = HttpHeader::with_int("Offset", -12);
    assert_eq!((h.key.as_str(), h.value.as_str()), ("Offset", "-12"));
    let h = HttpHeader::with_int("Min", i32::MIN);
    assert_eq!(h.value, "-2147483648");
    let h = HttpHeader::with_int("Max", i32::MAX);
    assert_eq!(h.value, "2147483647");
    let h = HttpHeader::with_string("Content-Type", String::from("text/html"));
    assert_eq!((h.key.as_str(), h.value.as_str()), ("Content-Type", "text/html"));
    let h = HttpHeader::with_str("Connection", "close");
    assert_eq!((h.key.as_str(), h.value.as_str()), ("Connection", "close"));
}

#[test]
fn header_wire_form() {
    assert_eq!(HttpHeader::with_str("Host", "localhost:8080").to_string(), "Host: localhost:8080");
    assert_eq!(HttpHeader::with_int("Content-Length", 0).to_string(), "Content-Length: 0");
    assert_eq!(HttpHeader::with_str("", "").to_string(), ": ");
}

#[test]
fn headers_are_appended_in_order() {
    let headers = HttpHeaders::new(3)
        .add_str("Server", "x")
        .add_int("Content-Length", 5)
        .add_string("Content-Type", String::from("text/plain"));
    let pairs: Vec<(&str, &str)> =
        headers.headers.iter().map(|h| (h.key.as_str(), h.value.as_str())).collect();
    assert_eq!(
        pairs,
        vec![("Server", "x"), ("Content-Length", "5"), ("Content-Type", "text/plain")]
    );
    assert_eq!(headers.to_string(), "Server: x\nContent-Length: 5\nContent-Type: text/plain");
}

#[test]
fn add_appends_a_given_header() {
    let headers = HttpHeaders::new(0).add(HttpHeader::with_str("A", "1")).add(HttpHeader::with_str("A", "2"));
    assert_eq!(headers.to_string(), "A: 1\nA: 2");
}

#[test]
fn empty_header_list_has_empty_wire_form() {
    assert_eq!(HttpHeaders::new(0).to_string(), "");
    assert_eq!(HttpHeaders::new(5).headers.len(), 0);
}

#[test]
fn single_header_has_no_line_feed() {
    assert_eq!(HttpHeaders::new(1).add_str("Host", "a").to_string(), "Host: a");
}

#[test]
fn new_accepts_any_size_hint() {
    let headers = HttpHeaders::new(usize::MAX);
    assert_eq!(headers.headers.len(), 0);
    assert_eq!(headers.add_int("N", 1).to_string(), "N: 1");
}

#[test]
fn payload_wire_form_is_its_value() {
    assert_eq!(HttpPayload { value: String::from("hello\nworld") }.to_string(), "hello\nworld");
    assert_eq!(HttpPayload { value: String::new() }.to_string(), "");
}
