//! Character-level helpers shared by the message model and the parser:
//! conversion between strings and character vectors, whitespace trimming,
//! splitting on a separator, line splitting and decimal rendering.

use vstd::prelude::*;

verus! {

/// `String::push` appends the given character to the end of the string.
pub assume_specification[ String::push ](s: &mut String, c: char)
    ensures
        final(s)@ == old(s)@.push(c),
;

/// The characters of `text`, in order.
pub fn chars_of(text: &str) -> (out: Vec<char>)
    ensures
        out@ == text@,
{
    let mut out: Vec<char> = Vec::new();
    for c in it: text.chars()
        invariant
            it.seq() == text@,
            out@ == it.seq().subrange(0, it.index() as int),
    {
        out.push(c);
    }
    assert(text@.subrange(0, text@.len() as int) == text@);
    out
}

/// The string made of the characters `chars[from..to]`.
pub fn string_of(chars: &[char], from: usize, to: usize) -> (out: String)
    requires
        from <= to <= chars@.len(),
    ensures
        out@ == chars@.subrange(from as int, to as int),
{
    let mut out = String::new();
    let mut i: usize = from;
    while i < to
        invariant
            from <= i <= to <= chars@.len(),
            out@ == chars@.subrange(from as int, i as int),
        decreases to - i,
    {
        out.push(chars[i]);
        i = i + 1;
    }
    out
}

/// Whether `c` is white space: a character with the Unicode property
/// `White_Space`.
pub open spec fn is_space(c: char) -> bool {
    let u = c as u32;
    ||| 0x09 <= u <= 0x0D
    ||| u == 0x20
    ||| u == 0x85
    ||| u == 0xA0
    ||| u == 0x1680
    ||| 0x2000 <= u <= 0x200A
    ||| u == 0x2028
    ||| u == 0x2029
    ||| u == 0x202F
    ||| u == 0x205F
    ||| u == 0x3000
}

/// Decides `is_space`.
pub fn is_whitespace(c: char) -> (b: bool)
    ensures
        b == is_space(c),
{
    let u: u32 = c as u32;
    (0x09 <= u && u <= 0x0D) || u == 0x20 || u == 0x85 || u == 0xA0 || u == 0x1680 || (0x2000 <= u
        && u <= 0x200A) || u == 0x2028 || u == 0x2029 || u == 0x202F || u == 0x205F || u == 0x3000
}

/// `s` without its leading white space.
pub open spec fn trim_start(s: Seq<char>) -> Seq<char>
    decreases s.len(),
{
    if s.len() > 0 && is_space(s[0]) {
        trim_start(s.drop_first())
    } else {
        s
    }
}

/// `s` without its trailing white space.
pub open spec fn trim_end(s: Seq<char>) -> Seq<char>
    decreases s.len(),
{
    if s.len() > 0 && is_space(s.last()) {
        trim_end(s.drop_last())
    } else {
        s
    }
}

/// `s` without its leading and trailing white space.
pub open spec fn trimmed(s: Seq<char>) -> Seq<char> {
    trim_end(trim_start(s))
}

/// Dropping `k` leading white-space characters does not change `trim_start`.
pub proof fn lemma_trim_start_skip(s: Seq<char>, k: int)
    requires
        0 <= k <= s.len(),
        forall|j: int| 0 <= j < k ==> is_space(s[j]),
    ensures
        trim_start(s) == trim_start(s.subrange(k, s.len() as int)),
    decreases k,
{
    if k == 0 {
        assert(s.subrange(0, s.len() as int) == s);
    } else {
        let t = s.drop_first();
        assert forall|j: int| 0 <= j < k - 1 implies is_space(t[j]) by {
            assert(t[j] == s[j + 1]);
        }
        lemma_trim_start_skip(t, k - 1);
        assert(t.subrange(k - 1, t.len() as int) == s.subrange(k, s.len() as int));
    }
}

/// Dropping `k` trailing white-space characters does not change `trim_end`.
pub proof fn lemma_trim_end_skip(s: Seq<char>, k: int)
    requires
        0 <= k <= s.len(),
        forall|j: int| s.len() - k <= j < s.len() ==> is_space(s[j]),
    ensures
        trim_end(s) == trim_end(s.subrange(0, s.len() - k)),
    decreases k,
{
    if k == 0 {
        assert(s.subrange(0, s.len() as int) == s);
    } else {
        let t = s.drop_last();
        assert forall|j: int| t.len() - (k - 1) <= j < t.len() implies is_space(t[j]) by {
            assert(t[j] == s[j]);
        }
        lemma_trim_end_skip(t, k - 1);
        assert(t.subrange(0, t.len() - (k - 1)) == s.subrange(0, s.len() - k));
    }
}

/// The bounds `(a, b)` of `chars[from..to]` trimmed of surrounding white
/// space.
pub fn trim_bounds(chars: &[char], from: usize, to: usize) -> (bounds: (usize, usize))
    requires
        from <= to <= chars@.len(),
    ensures
        from <= bounds.0 <= bounds.1 <= to,
        chars@.subrange(bounds.0 as int, bounds.1 as int) == trimmed(
            chars@.subrange(from as int, to as int),
        ),
{
    let ghost whole = chars@.subrange(from as int, to as int);
    let mut a: usize = from;
    while a < to && is_whitespace(chars[a])
        invariant
            from <= a <= to <= chars@.len(),
            forall|j: int| from <= j < a ==> is_space(chars@[j]),
        decreases to - a,
    {
        a = a + 1;
    }
    let ghost middle = chars@.subrange(a as int, to as int);
    proof {
        assert forall|j: int| 0 <= j < a - from implies is_space(whole[j]) by {
            assert(whole[j] == chars@[from + j]);
        }
        lemma_trim_start_skip(whole, a - from);
        assert(whole.subrange(a - from, whole.len() as int) == middle);
        assert(trim_start(middle) == middle);
    }
    let mut b: usize = to;
    while a < b && is_whitespace(chars[b - 1])
        invariant
            a <= b <= to <= chars@.len(),
            forall|j: int| b <= j < to ==> is_space(chars@[j]),
        decreases b - a,
    {
        b = b - 1;
    }
    proof {
        let inner = chars@.subrange(a as int, b as int);
        assert forall|j: int| middle.len() - (to - b) <= j < middle.len() implies is_space(
            middle[j],
        ) by {
            assert(middle[j] == chars@[a + j]);
        }
        lemma_trim_end_skip(middle, to - b);
        assert(middle.subrange(0, middle.len() - (to - b)) == inner);
        if inner.len() > 0 {
            assert(inner.last() == chars@[b - 1]);
        }
        assert(trim_end(inner) == inner);
    }
    (a, b)
}

/// The index of the first occurrence of `c` in `s`, or `s.len()` where there
/// is none.
pub open spec fn first_index_of(s: Seq<char>, c: char) -> int
    decreases s.len(),
{
    if s.len() == 0 || s[0] == c {
        0
    } else {
        1 + first_index_of(s.drop_first(), c)
    }
}

/// `first_index_of` is the least index that holds `c`, or the length.
pub proof fn lemma_first_index_of(s: Seq<char>, c: char)
    ensures
        0 <= first_index_of(s, c) <= s.len(),
        forall|j: int| 0 <= j < first_index_of(s, c) ==> s[j] != c,
        first_index_of(s, c) < s.len() ==> s[first_index_of(s, c)] == c,
    decreases s.len(),
{
    if s.len() == 0 || s[0] == c {
    } else {
        let t = s.drop_first();
        lemma_first_index_of(t, c);
        assert forall|j: int| 0 <= j < first_index_of(s, c) implies s[j] != c by {
            if j > 0 {
                assert(s[j] == t[j - 1]);
            }
        }
    }
}

/// An index `i` that holds `c`, or the length, with no `c` before it, is
/// `first_index_of`.
pub proof fn lemma_first_index_is(s: Seq<char>, c: char, i: int)
    requires
        0 <= i <= s.len(),
        forall|j: int| 0 <= j < i ==> s[j] != c,
        i < s.len() ==> s[i] == c,
    ensures
        first_index_of(s, c) == i,
{
    lemma_first_index_of(s, c);
    let k = first_index_of(s, c);
    if k < i {
        assert(s[k] != c);
    } else if i < k {
        assert(s[i] != c);
    }
}

/// The index of the first `c` in `chars[from..]`, relative to the slice's
/// start, or the slice's length where there is none.
pub fn find_char(chars: &[char], from: usize, c: char) -> (at: usize)
    requires
        from <= chars@.len(),
    ensures
        from <= at <= chars@.len(),
        at - from == first_index_of(chars@.subrange(from as int, chars@.len() as int), c),
        forall|j: int| from <= j < at ==> chars@[j] != c,
        at < chars@.len() ==> chars@[at as int] == c,
{
    let mut at: usize = from;
    while at < chars.len() && chars[at] != c
        invariant
            from <= at <= chars@.len(),
            forall|j: int| from <= j < at ==> chars@[j] != c,
        decreases chars@.len() - at,
    {
        at = at + 1;
    }
    proof {
        let rest = chars@.subrange(from as int, chars@.len() as int);
        assert forall|j: int| 0 <= j < at - from implies rest[j] != c by {
            assert(rest[j] == chars@[from + j]);
        }
        lemma_first_index_is(rest, c, at - from);
    }
    at
}

/// The pieces of `s` between occurrences of `sep`: one more piece than there
/// are separators, empty pieces included.
pub open spec fn split_on(s: Seq<char>, sep: char) -> Seq<Seq<char>>
    decreases s.len(),
{
    let i = first_index_of(s, sep);
    if 0 <= i < s.len() {
        seq![s.subrange(0, i)] + split_on(s.subrange(i + 1, s.len() as int), sep)
    } else {
        seq![s]
    }
}

/// The views of the strings of `v`, in order.
pub open spec fn views_of(v: Seq<String>) -> Seq<Seq<char>> {
    Seq::new(v.len(), |i: int| v[i]@)
}

/// Splits `text` on every occurrence of `sep`.
pub fn split(text: &str, sep: char) -> (pieces: Vec<String>)
    ensures
        views_of(pieces@) == split_on(text@, sep),
{
    let chars = chars_of(text);
    let n: usize = chars.len();
    let mut pieces: Vec<String> = Vec::new();
    let mut start: usize = 0;
    let mut at: usize = find_char(chars.as_slice(), start, sep);
    assert(chars@.subrange(0, n as int) == chars@);
    while at < n
        invariant
            n == chars@.len(),
            chars@ == text@,
            start <= at <= n,
            at - start == first_index_of(chars@.subrange(start as int, n as int), sep),
            views_of(pieces@) + split_on(chars@.subrange(start as int, n as int), sep)
                == split_on(text@, sep),
        decreases n - at,
    {
        let ghost rest = chars@.subrange(start as int, n as int);
        let ghost before = views_of(pieces@);
        let piece = string_of(chars.as_slice(), start, at);
        pieces.push(piece);
        proof {
            assert(rest.subrange(0, at - start) == chars@.subrange(start as int, at as int));
            assert(rest.subrange(at - start + 1, rest.len() as int) == chars@.subrange(
                at + 1,
                n as int,
            ));
            assert(views_of(pieces@) == before + seq![piece@]);
        }
        start = at + 1;
        at = find_char(chars.as_slice(), start, sep);
    }
    let ghost before = views_of(pieces@);
    let last = string_of(chars.as_slice(), start, n);
    pieces.push(last);
    assert(views_of(pieces@) == before + seq![last@]);
    pieces
}

/// `s` without one trailing carriage return, if it has one.
pub open spec fn strip_cr(s: Seq<char>) -> Seq<char> {
    if s.len() > 0 && s.last() == '\r' {
        s.drop_last()
    } else {
        s
    }
}

/// The first line of a non-empty text: what stands before the first line
/// feed, without a carriage return that directly precedes that line feed; the
/// whole text where it holds no line feed.
pub open spec fn first_line(s: Seq<char>) -> Seq<char> {
    let i = first_index_of(s, '\n');
    if 0 <= i < s.len() {
        strip_cr(s.subrange(0, i))
    } else {
        s
    }
}

/// What follows the first line of a text and its line feed.
pub open spec fn after_first_line(s: Seq<char>) -> Seq<char> {
    let i = first_index_of(s, '\n');
    if 0 <= i < s.len() {
        s.subrange(i + 1, s.len() as int)
    } else {
        Seq::empty()
    }
}

/// A text that is read line by line. Its view is the text not yet read.
pub struct Lines {
    chars: Vec<char>,
    pos: usize,
}

impl View for Lines {
    type V = Seq<char>;

    closed spec fn view(&self) -> Seq<char> {
        self.chars@.subrange(self.pos as int, self.chars@.len() as int)
    }
}

impl Lines {
    #[verifier::type_invariant]
    spec fn within(&self) -> bool {
        self.pos <= self.chars@.len()
    }

    /// A reader at the start of `text`.
    pub fn new(text: &str) -> (lines: Lines)
        ensures
            lines@ == text@,
    {
        let chars = chars_of(text);
        assert(chars@.subrange(0, chars@.len() as int) == chars@);
        Lines { chars, pos: 0 }
    }

    /// Whether nothing is left to read.
    pub fn is_exhausted(&self) -> (done: bool)
        ensures
            done == (self@.len() == 0),
    {
        proof {
            use_type_invariant(self);
        }
        self.pos >= self.chars.len()
    }

    /// Reads the next line, if any text is left, and moves behind its line
    /// feed.
    pub fn next_line(&mut self) -> (line: Option<String>)
        ensures
            old(self)@.len() == 0 ==> line is None && final(self)@ == old(self)@,
            old(self)@.len() > 0 ==> line is Some && line->0@ == first_line(old(self)@)
                && final(self)@ == after_first_line(old(self)@),
    {
        proof {
            use_type_invariant(&*self);
        }
        let n: usize = self.chars.len();
        if self.pos >= n {
            return None;
        }
        let ghost rest = self@;
        let at: usize = find_char(self.chars.as_slice(), self.pos, '\n');
        if at < n {
            let mut end: usize = at;
            if self.pos < end && self.chars[end - 1] == '\r' {
                end = end - 1;
            }
            let line = string_of(self.chars.as_slice(), self.pos, end);
            proof {
                let upto = rest.subrange(0, at - self.pos);
                assert(upto == self.chars@.subrange(self.pos as int, at as int));
                if upto.len() > 0 {
                    assert(upto.last() == self.chars@[at - 1]);
                }
                assert(strip_cr(upto) == self.chars@.subrange(self.pos as int, end as int));
                assert(rest.subrange(at - self.pos + 1, rest.len() as int)
                    == self.chars@.subrange(at + 1, n as int));
            }
            self.pos = at + 1;
            Some(line)
        } else {
            let line = string_of(self.chars.as_slice(), self.pos, n);
            self.pos = n;
            assert(self@ == Seq::<char>::empty());
            Some(line)
        }
    }

    /// Reads all the text that is left.
    pub fn take_rest(&mut self) -> (rest: String)
        ensures
            rest@ == old(self)@,
            final(self)@.len() == 0,
    {
        proof {
            use_type_invariant(&*self);
        }
        let n: usize = self.chars.len();
        let rest = string_of(self.chars.as_slice(), self.pos, n);
        self.pos = n;
        rest
    }
}

/// The character of the decimal digit `d`.
pub open spec fn digit_char(d: int) -> char {
    if d == 0 {
        '0'
    } else if d == 1 {
        '1'
    } else if d == 2 {
        '2'
    } else if d == 3 {
        '3'
    } else if d == 4 {
        '4'
    } else if d == 5 {
        '5'
    } else if d == 6 {
        '6'
    } else if d == 7 {
        '7'
    } else if d == 8 {
        '8'
    } else {
        '9'
    }
}

/// Whether `c` is one of the ten decimal digits.
pub open spec fn is_digit(c: char) -> bool {
    exists|d: int| 0 <= d <= 9 && c == #[trigger] digit_char(d)
}

/// The decimal digits of `n`, most significant first, without leading zeros.
pub open spec fn decimal(n: nat) -> Seq<char>
    decreases n,
{
    if n < 10 {
        seq![digit_char(n as int)]
    } else {
        decimal(n / 10).push(digit_char((n % 10) as int))
    }
}

/// The decimal text of an integer: a minus sign before the digits of a
/// negative one.
pub open spec fn signed_decimal(i: int) -> Seq<char> {
    if i < 0 {
        seq!['-'] + decimal((-i) as nat)
    } else {
        decimal(i as nat)
    }
}

/// The character of the decimal digit `d`.
pub fn digit_to_char(d: u8) -> (c: char)
    requires
        d <= 9,
    ensures
        c == digit_char(d as int),
{
    if d == 0 {
        '0'
    } else if d == 1 {
        '1'
    } else if d == 2 {
        '2'
    } else if d == 3 {
        '3'
    } else if d == 4 {
        '4'
    } else if d == 5 {
        '5'
    } else if d == 6 {
        '6'
    } else if d == 7 {
        '7'
    } else if d == 8 {
        '8'
    } else {
        '9'
    }
}

/// Appends the decimal digits of `n` to `out`.
pub fn push_decimal(out: &mut String, n: u64)
    ensures
        final(out)@ == old(out)@ + decimal(n as nat),
    decreases n,
{
    if n >= 10 {
        push_decimal(out, n / 10);
    }
    let d: u8 = (n % 10) as u8;
    out.push(digit_to_char(d));
    proof {
        if n >= 10 {
            assert(final(out)@ == (old(out)@ + decimal((n / 10) as nat)).push(
                digit_char((n % 10) as int),
            ));
        }
        assert(final(out)@ =~= old(out)@ + decimal(n as nat));
    }
}

/// The decimal text of `n`.
pub fn decimal_string(n: u64) -> (out: String)
    ensures
        out@ == decimal(n as nat),
{
    let mut out = String::new();
    push_decimal(&mut out, n);
    assert(Seq::<char>::empty() + decimal(n as nat) == decimal(n as nat));
    out
}

/// The decimal text of a signed integer.
pub fn signed_decimal_string(i: i64) -> (out: String)
    ensures
        out@ == signed_decimal(i as int),
{
    let mut out = String::new();
    if i < 0 {
        out.push('-');
        let magnitude: u64 = (-(i + 1)) as u64 + 1;
        push_decimal(&mut out, magnitude);
        assert(out@ == seq!['-'] + decimal((-i) as nat));
    } else {
        push_decimal(&mut out, i as u64);
        assert(Seq::<char>::empty() + decimal(i as nat) == decimal(i as nat));
    }
    out
}

/// Trimming never makes a text longer, and a text that trimming leaves at its
/// length is left as it is.
pub proof fn lemma_trim_len(s: Seq<char>)
    ensures
        trim_start(s).len() <= s.len(),
        trim_end(s).len() <= s.len(),
        trimmed(s).len() <= s.len(),
        trim_start(s).len() == s.len() ==> trim_start(s) == s,
        trim_end(s).len() == s.len() ==> trim_end(s) == s,
        trimmed(s) == s ==> trim_start(s) == s && trim_end(s) == s,
    decreases s.len(),
{
    if s.len() > 0 {
        lemma_trim_len(s.drop_first());
        lemma_trim_len(s.drop_last());
    }
    lemma_trim_end_len(trim_start(s));
}

/// `trim_end` never makes a text longer.
proof fn lemma_trim_end_len(s: Seq<char>)
    ensures
        trim_end(s).len() <= s.len(),
    decreases s.len(),
{
    if s.len() > 0 {
        lemma_trim_end_len(s.drop_last());
    }
}

/// The decimal text of a number of two or more digits is two or more
/// characters long, and no decimal text is empty.
pub proof fn lemma_decimal_len(n: nat)
    ensures
        decimal(n).len() >= 1,
        n >= 10 ==> decimal(n).len() >= 2,
    decreases n,
{
    if n >= 10 {
        lemma_decimal_len(n / 10);
    }
}


} // verus!
