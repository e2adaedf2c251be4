//! The message model shared by requests and responses: protocol version,
//! header list and payload, each with its wire form.

use vstd::prelude::*;
use crate::text::{chars_of, decimal, push_decimal, signed_decimal, signed_decimal_string};

verus! {

/// Why a request could not be read.
#[derive(Debug, Clone, Copy, PartialEq, Eq, Structural)]
pub enum ParseError {
    /// The version is none of the five known ones.
    UnknownVersion,
    /// The first line is not a method, a target and a version, each
    /// separated from the next by one space.
    MalformedRequestLine,
    /// A header line holds no colon.
    MalformedHeaderLine,
    /// The input ended before the empty line that closes the headers.
    MissingHeaderTerminator,
    /// The input is not UTF-8.
    InvalidEncoding,
    /// The input is longer than one read can hold.
    Truncated,
}

/// What reading gave, with the value that was read taken by its view.
pub open spec fn outcome<T: View>(res: Result<T, ParseError>) -> Result<T::V, ParseError> {
    match res {
        Ok(value) => Ok(value@),
        Err(e) => Err(e),
    }
}

/// An HTTP protocol version.
#[derive(Debug, Clone, Copy, PartialEq, Eq, Structural)]
pub struct HttpVersion {
    pub major_version: u8,
    pub minor_version: u8,
    pub is_supported: bool,
}

/// The wire form of a version: `HTTP/`, the major number, a dot, the minor
/// number.
pub open spec fn version_text(major: u8, minor: u8) -> Seq<char> {
    seq!['H', 'T', 'T', 'P', '/'] + decimal(major as nat) + seq!['.'] + decimal(minor as nat)
}

/// The version that a text names: one of the five known versions where the
/// text is that version's wire form, and an error for every other text.
pub open spec fn parse_version(text: Seq<char>) -> Result<HttpVersion, ParseError> {
    if text == version_text(0, 9) {
        Ok(HttpVersion::spec_v0_9())
    } else if text == version_text(1, 0) {
        Ok(HttpVersion::spec_v1_0())
    } else if text == version_text(1, 1) {
        Ok(HttpVersion::spec_v1_1())
    } else if text == version_text(2, 0) {
        Ok(HttpVersion::spec_v2_0())
    } else if text == version_text(3, 0) {
        Ok(HttpVersion::spec_v3_0())
    } else {
        Err(ParseError::UnknownVersion)
    }
}

impl HttpVersion {
    pub open spec fn spec_unknown() -> HttpVersion {
        HttpVersion { major_version: 0, minor_version: 0, is_supported: false }
    }

    pub open spec fn spec_v0_9() -> HttpVersion {
        HttpVersion { major_version: 0, minor_version: 9, is_supported: false }
    }

    pub open spec fn spec_v1_0() -> HttpVersion {
        HttpVersion { major_version: 1, minor_version: 0, is_supported: true }
    }

    pub open spec fn spec_v1_1() -> HttpVersion {
        HttpVersion { major_version: 1, minor_version: 1, is_supported: false }
    }

    pub open spec fn spec_v2_0() -> HttpVersion {
        HttpVersion { major_version: 2, minor_version: 0, is_supported: false }
    }

    pub open spec fn spec_v3_0() -> HttpVersion {
        HttpVersion { major_version: 3, minor_version: 0, is_supported: false }
    }

    /// Whether this is one of the five known versions, with the support flag
    /// that belongs to it.
    pub open spec fn is_canonical(self) -> bool {
        ||| self == Self::spec_v0_9()
        ||| self == Self::spec_v1_0()
        ||| self == Self::spec_v1_1()
        ||| self == Self::spec_v2_0()
        ||| self == Self::spec_v3_0()
    }

    /// The wire form of this version.
    pub open spec fn wire_text(self) -> Seq<char> {
        version_text(self.major_version, self.minor_version)
    }

    #[verifier::when_used_as_spec(spec_new)]
    pub fn new(major_v: u8, minor_v: u8, is_supported: bool) -> (v: HttpVersion)
        ensures
            v == Self::spec_new(major_v, minor_v, is_supported),
    {
        HttpVersion { major_version: major_v, minor_version: minor_v, is_supported }
    }

    pub open spec fn spec_new(major_v: u8, minor_v: u8, is_supported: bool) -> HttpVersion {
        HttpVersion { major_version: major_v, minor_version: minor_v, is_supported }
    }

    /// The placeholder for a version that is not known: 0.0, not supported.
    pub fn unknown() -> (v: HttpVersion)
        ensures
            v == Self::spec_unknown(),
    {
        HttpVersion::new(0, 0, false)
    }

    /// HTTP/0.9.
    pub fn v0_9() -> (v: HttpVersion)
        ensures
            v == Self::spec_v0_9(),
    {
        HttpVersion::new(0, 9, false)
    }

    /// HTTP/1.0, the one version marked as supported.
    pub fn v1_0() -> (v: HttpVersion)
        ensures
            v == Self::spec_v1_0(),
    {
        HttpVersion::new(1, 0, true)
    }

    /// HTTP/1.1.
    pub fn v1_1() -> (v: HttpVersion)
        ensures
            v == Self::spec_v1_1(),
    {
        HttpVersion::new(1, 1, false)
    }

    /// HTTP/2.0.
    pub fn v2_0() -> (v: HttpVersion)
        ensures
            v == Self::spec_v2_0(),
    {
        HttpVersion::new(2, 0, false)
    }

    /// HTTP/3.0.
    pub fn v3_0() -> (v: HttpVersion)
        ensures
            v == Self::spec_v3_0(),
    {
        HttpVersion::new(3, 0, false)
    }
}

/// The wire form of a version whose two numbers are below ten is eight
/// characters long: the prefix, a digit, a dot and a digit.
pub proof fn lemma_version_text_digits(major: u8, minor: u8)
    requires
        major < 10,
        minor < 10,
    ensures
        version_text(major, minor) == seq![
            'H',
            'T',
            'T',
            'P',
            '/',
            crate::text::digit_char(major as int),
            '.',
            crate::text::digit_char(minor as int),
        ],
{
    assert(version_text(major, minor) =~= seq![
        'H',
        'T',
        'T',
        'P',
        '/',
        crate::text::digit_char(major as int),
        '.',
        crate::text::digit_char(minor as int),
    ]);
}

impl HttpVersion {
    /// Reads a version from its wire form. Only the five known versions are
    /// accepted; every other text is an error.
    pub fn parse_str(http_v_as_str: &str) -> (res: Result<HttpVersion, ParseError>)
        ensures
            res == parse_version(http_v_as_str@),
    {
        let chars = chars_of(http_v_as_str);
        proof {
            lemma_version_text_digits(0, 9);
            lemma_version_text_digits(1, 0);
            lemma_version_text_digits(1, 1);
            lemma_version_text_digits(2, 0);
            lemma_version_text_digits(3, 0);
        }
        if chars.len() != 8 || chars[0] != 'H' || chars[1] != 'T' || chars[2] != 'T' || chars[3]
            != 'P' || chars[4] != '/' || chars[6] != '.' {
            return Err(ParseError::UnknownVersion);
        }
        let major: char = chars[5];
        let minor: char = chars[7];
        assert(chars@ =~= seq!['H', 'T', 'T', 'P', '/', major, '.', minor]);
        if major == '0' && minor == '9' {
            Ok(HttpVersion::v0_9())
        } else if major == '1' && minor == '0' {
            Ok(HttpVersion::v1_0())
        } else if major == '1' && minor == '1' {
            Ok(HttpVersion::v1_1())
        } else if major == '2' && minor == '0' {
            Ok(HttpVersion::v2_0())
        } else if major == '3' && minor == '0' {
            Ok(HttpVersion::v3_0())
        } else {
            Err(ParseError::UnknownVersion)
        }
    }

    /// The wire form of the version `major_v.minor_v`.
    pub fn get_version_format_as_str(major_v: u8, minor_v: u8) -> (text: String)
        ensures
            text@ == version_text(major_v, minor_v),
    {
        let mut text = String::new();
        text.push('H');
        text.push('T');
        text.push('T');
        text.push('P');
        text.push('/');
        assert(text@ == seq!['H', 'T', 'T', 'P', '/']);
        push_decimal(&mut text, major_v as u64);
        text.push('.');
        push_decimal(&mut text, minor_v as u64);
        assert(text@ =~= version_text(major_v, minor_v));
        text
    }

    /// The known version with the given numbers, or an error where there is
    /// none.
    pub fn get_for_version(major_v: u8, minor_v: u8) -> (res: Result<HttpVersion, ParseError>)
        ensures
            res == version_for(major_v, minor_v),
            res == parse_version(version_text(major_v, minor_v)),
    {
        proof {
            lemma_version_for(major_v, minor_v);
        }
        let http_version_as_str = HttpVersion::get_version_format_as_str(major_v, minor_v);
        HttpVersion::parse_str(http_version_as_str.as_str())
    }

    /// The wire form of this version.
    pub fn to_string(&self) -> (text: String)
        ensures
            text@ == self.wire_text(),
    {
        HttpVersion::get_version_format_as_str(self.major_version, self.minor_version)
    }
}

/// Whether `text` has the shape `HTTP/<digit>.<digit>`.
pub open spec fn has_version_shape(text: Seq<char>) -> bool {
    &&& text.len() == 8
    &&& text.subrange(0, 5) == seq!['H', 'T', 'T', 'P', '/']
    &&& crate::text::is_digit(text[5])
    &&& text[6] == '.'
    &&& crate::text::is_digit(text[7])
}

/// The known version with the given numbers, or an error where there is
/// none.
pub open spec fn version_for(major: u8, minor: u8) -> Result<HttpVersion, ParseError> {
    if major == 0 && minor == 9 {
        Ok(HttpVersion::spec_v0_9())
    } else if major == 1 && minor == 0 {
        Ok(HttpVersion::spec_v1_0())
    } else if major == 1 && minor == 1 {
        Ok(HttpVersion::spec_v1_1())
    } else if major == 2 && minor == 0 {
        Ok(HttpVersion::spec_v2_0())
    } else if major == 3 && minor == 0 {
        Ok(HttpVersion::spec_v3_0())
    } else {
        Err(ParseError::UnknownVersion)
    }
}

/// Reading the wire form of a known version gives that version back.
pub proof fn lemma_version_round_trip(v: HttpVersion)
    requires
        v.is_canonical(),
    ensures
        parse_version(v.wire_text()) == Ok::<HttpVersion, ParseError>(v),
{
    lemma_version_text_digits(0, 9);
    lemma_version_text_digits(1, 0);
    lemma_version_text_digits(1, 1);
    lemma_version_text_digits(2, 0);
    lemma_version_text_digits(3, 0);
    let t = v.wire_text();
    assert(t[5] == crate::text::digit_char(v.major_version as int));
    assert(t[7] == crate::text::digit_char(v.minor_version as int));
}

/// A text is read as a version only where it is the wire form of a known
/// version; the result is then that version.
pub proof fn lemma_parse_version_accepts(text: Seq<char>)
    ensures
        parse_version(text) is Ok <==> exists|v: HttpVersion|
            v.is_canonical() && text == #[trigger] v.wire_text(),
        parse_version(text) is Ok ==> parse_version(text)->Ok_0.is_canonical() && text
            == parse_version(text)->Ok_0.wire_text(),
        parse_version(text) is Err ==> parse_version(text) == Err::<HttpVersion, ParseError>(
            ParseError::UnknownVersion,
        ),
{
    if parse_version(text) is Ok {
        let v = parse_version(text)->Ok_0;
        assert(v.is_canonical() && text == v.wire_text());
    }
    if exists|v: HttpVersion| v.is_canonical() && text == #[trigger] v.wire_text() {
        let v = choose|v: HttpVersion| v.is_canonical() && text == #[trigger] v.wire_text();
        lemma_version_round_trip(v);
    }
}

/// A text that does not have the shape `HTTP/<digit>.<digit>` is never read
/// as a version.
pub proof fn lemma_parse_version_rejects(text: Seq<char>)
    requires
        !has_version_shape(text),
    ensures
        parse_version(text) == Err::<HttpVersion, ParseError>(ParseError::UnknownVersion),
{
    lemma_version_text_digits(0, 9);
    lemma_version_text_digits(1, 0);
    lemma_version_text_digits(1, 1);
    lemma_version_text_digits(2, 0);
    lemma_version_text_digits(3, 0);
    if parse_version(text) is Ok {
        let v = parse_version(text)->Ok_0;
        assert(text == v.wire_text());
        assert(text.subrange(0, 5) =~= seq!['H', 'T', 'T', 'P', '/']);
        assert(text[5] == crate::text::digit_char(v.major_version as int));
        assert(text[7] == crate::text::digit_char(v.minor_version as int));
        assert(false);
    }
}

/// Formatting two numbers and reading the text back gives the known version
/// with those numbers, and an error where there is none.
pub proof fn lemma_version_for(major: u8, minor: u8)
    ensures
        parse_version(version_text(major, minor)) == version_for(major, minor),
{
    lemma_version_text_digits(0, 9);
    lemma_version_text_digits(1, 0);
    lemma_version_text_digits(1, 1);
    lemma_version_text_digits(2, 0);
    lemma_version_text_digits(3, 0);
    crate::text::lemma_decimal_len(major as nat);
    crate::text::lemma_decimal_len(minor as nat);
    let t = version_text(major, minor);
    assert(t.len() == 6 + decimal(major as nat).len() + decimal(minor as nat).len());
    if major < 10 && minor < 10 {
        lemma_version_text_digits(major, minor);
        assert(t[5] == crate::text::digit_char(major as int));
        assert(t[7] == crate::text::digit_char(minor as int));
    } else {
        assert(t.len() > 8);
    }
}

/// What a header holds: a name and a value, as texts.
pub struct HeaderView {
    pub key: Seq<char>,
    pub value: Seq<char>,
}

/// The wire form of one header: the name, a colon, a space, the value.
pub open spec fn header_text(h: HeaderView) -> Seq<char> {
    h.key + seq![':', ' '] + h.value
}

/// The wire form of a header list: the headers in order, a line feed between
/// each two. The empty list has the empty text.
pub open spec fn headers_text(hs: Seq<HeaderView>) -> Seq<char>
    decreases hs.len(),
{
    if hs.len() == 0 {
        Seq::empty()
    } else if hs.len() == 1 {
        header_text(hs[0])
    } else {
        headers_text(hs.drop_last()) + seq!['\n'] + header_text(hs.last())
    }
}

/// One header: a name and its value.
#[derive(Debug, PartialEq, Eq)]
pub struct HttpHeader {
    pub key: String,
    pub value: String,
}

impl View for HttpHeader {
    type V = HeaderView;

    open spec fn view(&self) -> HeaderView {
        HeaderView { key: self.key@, value: self.value@ }
    }
}

impl HttpHeader {
    /// A header whose value is the decimal text of an integer.
    pub fn with_int(name: &str, value: i32) -> (h: HttpHeader)
        ensures
            h@ == (HeaderView { key: name@, value: signed_decimal(value as int) }),
    {
        HttpHeader { key: String::from_str(name), value: signed_decimal_string(value as i64) }
    }

    /// A header with the given value.
    pub fn with_string(name: &str, value: String) -> (h: HttpHeader)
        ensures
            h@ == (HeaderView { key: name@, value: value@ }),
    {
        HttpHeader { key: String::from_str(name), value }
    }

    /// A header with a copy of the given value.
    pub fn with_str(name: &str, value: &str) -> (h: HttpHeader)
        ensures
            h@ == (HeaderView { key: name@, value: value@ }),
    {
        HttpHeader { key: String::from_str(name), value: String::from_str(value) }
    }

    /// The wire form of this header.
    pub fn to_string(&self) -> (text: String)
        ensures
            text@ == header_text(self@),
    {
        let mut text = self.key.clone();
        text.push(':');
        text.push(' ');
        text.append(self.value.as_str());
        assert(text@ =~= header_text(self@));
        text
    }
}

/// An ordered list of headers.
#[derive(Debug, PartialEq, Eq)]
pub struct HttpHeaders {
    pub headers: Vec<HttpHeader>,
}

impl View for HttpHeaders {
    type V = Seq<HeaderView>;

    open spec fn view(&self) -> Seq<HeaderView> {
        Seq::new(self.headers@.len(), |i: int| self.headers@[i]@)
    }
}

/// The most room that a new header list sets aside in advance.
pub const MAX_INITIAL_HEADERS: usize = 64;

impl HttpHeaders {
    /// An empty list. `initial_size` says how many headers are expected; room
    /// is set aside for that many, and for `MAX_INITIAL_HEADERS` at most.
    pub fn new(initial_size: usize) -> (list: HttpHeaders)
        ensures
            list@ == Seq::<HeaderView>::empty(),
    {
        let room: usize = if initial_size > MAX_INITIAL_HEADERS {
            MAX_INITIAL_HEADERS
        } else {
            initial_size
        };
        let list = HttpHeaders { headers: Vec::with_capacity(room) };
        assert(list@ =~= Seq::<HeaderView>::empty());
        list
    }

    /// The list with one more header at its end.
    pub fn add(self, header: HttpHeader) -> (list: HttpHeaders)
        ensures
            list@ == self@.push(header@),
    {
        let mut headers = self.headers;
        headers.push(header);
        let list = HttpHeaders { headers };
        assert(list@ =~= self@.push(header@));
        list
    }

    /// The list with one more header, whose value is the decimal text of
    /// `header_value`.
    pub fn add_int(self, header_name: &str, header_value: i32) -> (list: HttpHeaders)
        ensures
            list@ == self@.push(
                HeaderView { key: header_name@, value: signed_decimal(header_value as int) },
            ),
    {
        self.add(HttpHeader::with_int(header_name, header_value))
    }

    /// The list with one more header.
    pub fn add_string(self, header_name: &str, header_value: String) -> (list: HttpHeaders)
        ensures
            list@ == self@.push(HeaderView { key: header_name@, value: header_value@ }),
    {
        self.add(HttpHeader::with_string(header_name, header_value))
    }

    /// The list with one more header.
    pub fn add_str(self, header_name: &str, header_value: &str) -> (list: HttpHeaders)
        ensures
            list@ == self@.push(HeaderView { key: header_name@, value: header_value@ }),
    {
        self.add(HttpHeader::with_str(header_name, header_value))
    }

    /// The wire form of the list.
    pub fn to_string(&self) -> (text: String)
        ensures
            text@ == headers_text(self@),
    {
        let mut text = String::new();
        let n: usize = self.headers.len();
        let mut i: usize = 0;
        while i < n
            invariant
                n == self.headers@.len(),
                i <= n,
                text@ == headers_text(self@.subrange(0, i as int)),
            decreases n - i,
        {
            let ghost before = self@.subrange(0, i as int);
            let ghost now = self@.subrange(0, i + 1);
            if i > 0 {
                text.push('\n');
            }
            let line = self.headers[i].to_string();
            text.append(line.as_str());
            proof {
                assert(now.drop_last() =~= before);
                assert(now.last() == self.headers@[i as int]@);
                if i == 0 {
                    assert(text@ =~= header_text(now[0]));
                } else {
                    assert(text@ =~= headers_text(before) + seq!['\n'] + header_text(now.last()));
                }
            }
            i = i + 1;
        }
        assert(self@.subrange(0, n as int) =~= self@);
        text
    }
}

/// The body of a message.
#[derive(Debug, PartialEq, Eq)]
pub struct HttpPayload {
    pub value: String,
}

impl View for HttpPayload {
    type V = Seq<char>;

    open spec fn view(&self) -> Seq<char> {
        self.value@
    }
}

impl HttpPayload {
    /// The body as it goes on the wire: unchanged.
    pub fn to_string(&self) -> (text: String)
        ensures
            text@ == self@,
    {
        self.value.clone()
    }
}

} // verus!
