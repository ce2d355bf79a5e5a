//! The stdio frame codec. A session starts with the framing unknown; a first
//! `Content-Length:` header switches it to length-prefixed for good, a first
//! JSON line to line-delimited. Replies are framed in the session's style.
use vstd::prelude::*;
use crate::text::{chars_of, string_of};

verus! {

/// A character that `char::is_whitespace` accepts (Unicode White_Space).
pub open spec fn is_ws(c: char) -> bool {
    ('\u{9}' <= c && c <= '\u{d}') || c == ' ' || c == '\u{85}' || c == '\u{a0}' || c
        == '\u{1680}' || ('\u{2000}' <= c && c <= '\u{200a}') || c == '\u{2028}' || c
        == '\u{2029}' || c == '\u{202f}' || c == '\u{205f}' || c == '\u{3000}'
}

/// `s` without its leading whitespace.
pub open spec fn trim_start(s: Seq<char>) -> Seq<char>
    decreases s.len(),
{
    if s.len() > 0 && is_ws(s[0]) {
        trim_start(s.drop_first())
    } else {
        s
    }
}

/// `s` without its trailing whitespace.
pub open spec fn trim_end(s: Seq<char>) -> Seq<char>
    decreases s.len(),
{
    if s.len() > 0 && is_ws(s.last()) {
        trim_end(s.drop_last())
    } else {
        s
    }
}

/// `s` without leading and trailing whitespace, as `str::trim` gives it.
pub open spec fn trim_seq(s: Seq<char>) -> Seq<char> {
    trim_end(trim_start(s))
}

/// Whether `c` is whitespace.
pub fn is_ws_char(c: char) -> (b: bool)
    ensures
        b == is_ws(c),
{
    ('\u{9}' <= c && c <= '\u{d}') || c == ' ' || c == '\u{85}' || c == '\u{a0}' || c
        == '\u{1680}' || ('\u{2000}' <= c && c <= '\u{200a}') || c == '\u{2028}' || c
        == '\u{2029}' || c == '\u{202f}' || c == '\u{205f}' || c == '\u{3000}'
}

/// The characters of `v` without leading and trailing whitespace.
pub fn trim_chars(v: &Vec<char>) -> (r: Vec<char>)
    ensures
        r@ == trim_seq(v@),
{
    let n = v.len();
    let mut a: usize = 0;
    assert(v@.subrange(0, n as int) =~= v@);
    while a < n && is_ws_char(v[a])
        invariant
            n == v@.len(),
            a <= n,
            trim_start(v@.subrange(a as int, n as int)) == trim_start(v@),
        decreases n - a,
    {
        proof {
            let s = v@.subrange(a as int, n as int);
            assert(s.drop_first() =~= v@.subrange(a + 1, n as int));
        }
        a += 1;
    }
    proof {
        assert(v@.subrange(0, n as int) =~= v@);
    }
    let ghost front = v@.subrange(a as int, n as int);
    let mut b: usize = n;
    while b > a && is_ws_char(v[b - 1])
        invariant
            n == v@.len(),
            a <= b <= n,
            front == v@.subrange(a as int, n as int),
            trim_start(v@) == front,
            trim_end(v@.subrange(a as int, b as int)) == trim_end(front),
        decreases b - a,
    {
        proof {
            let s = v@.subrange(a as int, b as int);
            assert(s.drop_last() =~= v@.subrange(a as int, b - 1));
        }
        b -= 1;
    }
    let mut r: Vec<char> = Vec::new();
    let mut i: usize = a;
    while i < b
        invariant
            a <= i <= b,
            b <= v@.len(),
            r@ == v@.subrange(a as int, i as int),
        decreases b - i,
    {
        r.push(v[i]);
        proof {
            assert(v@.subrange(a as int, i + 1) =~= v@.subrange(a as int, i as int).push(
                v@[i as int],
            ));
        }
        i += 1;
    }
    r
}

/// The characters of `v` without leading whitespace.
pub fn trim_start_chars(v: &Vec<char>) -> (r: Vec<char>)
    ensures
        r@ == trim_start(v@),
{
    let n = v.len();
    let mut a: usize = 0;
    assert(v@.subrange(0, n as int) =~= v@);
    while a < n && is_ws_char(v[a])
        invariant
            n == v@.len(),
            a <= n,
            trim_start(v@.subrange(a as int, n as int)) == trim_start(v@),
        decreases n - a,
    {
        proof {
            assert(v@.subrange(a as int, n as int).drop_first() =~= v@.subrange(a + 1, n as int));
        }
        a += 1;
    }
    crate::lines::slice_chars(v, a, n)
}

/// The digits `0` to `9`, in order.
pub open spec fn digit_chars() -> Seq<char> {
    seq!['0', '1', '2', '3', '4', '5', '6', '7', '8', '9']
}

/// An ASCII decimal digit.
pub open spec fn is_digit(c: char) -> bool {
    '0' <= c && c <= '9'
}

/// The value of a decimal digit.
pub open spec fn digit_value(c: char) -> nat {
    ((c as u32) - ('0' as u32)) as nat
}

/// The value of a run of decimal digits.
pub open spec fn digits_value(d: Seq<char>) -> nat
    decreases d.len(),
{
    if d.len() == 0 {
        0
    } else {
        digits_value(d.drop_last()) * 10 + digit_value(d.last())
    }
}

/// The decimal spelling of `n`, without leading zeros.
pub open spec fn decimal(n: nat) -> Seq<char>
    decreases n,
{
    if n < 10 {
        seq![digit_chars()[n as int]]
    } else {
        decimal(n / 10).push(digit_chars()[(n % 10) as int])
    }
}

/// `s` without one leading `+`.
pub open spec fn sign_stripped(s: Seq<char>) -> Seq<char> {
    if s.len() > 0 && s[0] == '+' {
        s.drop_first()
    } else {
        s
    }
}

/// Every character of `d` is a decimal digit.
pub open spec fn all_digits(d: Seq<char>) -> bool {
    forall|i: int| 0 <= i < d.len() ==> is_digit(#[trigger] d[i])
}

/// What `usize::from_str` gives for `s`: an optional `+`, then one or more
/// ASCII digits whose value fits in `usize`.
pub open spec fn parse_usize(s: Seq<char>) -> Option<usize> {
    let d = sign_stripped(s);
    if d.len() == 0 || !all_digits(d) {
        None
    } else if digits_value(d) > usize::MAX {
        None
    } else {
        Some(digits_value(d) as usize)
    }
}

proof fn lemma_digits_prefix(d: Seq<char>, j: int)
    requires
        0 <= j <= d.len(),
    ensures
        digits_value(d) >= digits_value(d.subrange(0, j)),
    decreases d.len(),
{
    if j < d.len() {
        lemma_digits_prefix(d.drop_last(), j);
        assert(d.drop_last().subrange(0, j) =~= d.subrange(0, j));
    } else {
        assert(d.subrange(0, j) =~= d);
    }
}

/// Reads a decimal number as `usize::from_str` does.
pub fn parse_usize_chars(s: &Vec<char>) -> (r: Option<usize>)
    ensures
        r == parse_usize(s@),
{
    let start: usize = if s.len() > 0 && s[0] == '+' {
        1
    } else {
        0
    };
    let ghost d = sign_stripped(s@);
    assert(d =~= s@.subrange(start as int, s@.len() as int));
    if start == s.len() {
        return None;
    }
    let mut acc: u128 = 0;
    let mut over = false;
    let mut i: usize = start;
    while i < s.len()
        invariant
            start <= i <= s@.len(),
            d == s@.subrange(start as int, s@.len() as int),
            d == sign_stripped(s@),
            forall|k: int| start <= k < i ==> is_digit(#[trigger] s@[k]),
            !over ==> acc == digits_value(s@.subrange(start as int, i as int)),
            !over ==> acc <= usize::MAX,
            over ==> digits_value(s@.subrange(start as int, i as int)) > usize::MAX,
        decreases s@.len() - i,
    {
        let c = s[i];
        if !('0' <= c && c <= '9') {
            assert(d[i - start] == c);
            assert(!is_digit(d[i - start]));
            return None;
        }
        proof {
            let p = s@.subrange(start as int, i + 1);
            assert(p.drop_last() =~= s@.subrange(start as int, i as int));
            assert(p.last() == c);
        }
        if !over {
            acc = acc * 10 + ((c as u32) - ('0' as u32)) as u128;
            if acc > usize::MAX as u128 {
                over = true;
            }
        } else {
            proof {
                let p = s@.subrange(start as int, i + 1);
                assert(digits_value(p) >= digits_value(p.drop_last()));
            }
        }
        i += 1;
    }
    assert(s@.subrange(start as int, s@.len() as int) =~= d);
    assert forall|k: int| 0 <= k < d.len() implies is_digit(#[trigger] d[k]) by {
        assert(d[k] == s@[start + k]);
    }
    if over {
        None
    } else {
        Some(acc as usize)
    }
}

/// Appends the decimal spelling of `n`.
pub fn push_decimal(n: usize, out: &mut Vec<char>)
    ensures
        final(out)@ == old(out)@ + decimal(n as nat),
    decreases n,
{
    let digits = vec!['0', '1', '2', '3', '4', '5', '6', '7', '8', '9'];
    assert(digits@ == digit_chars());
    if n >= 10 {
        push_decimal(n / 10, out);
    }
    let ghost mid = out@;
    out.push(digits[n % 10]);
    proof {
        if n < 10 {
            assert(decimal(n as nat) == seq![digit_chars()[n as int]]);
            assert(out@ =~= old(out)@ + decimal(n as nat));
        } else {
            assert(out@ =~= old(out)@ + decimal(n as nat));
        }
    }
}

/// The decimal spelling of `n`.
pub fn decimal_string(n: usize) -> (r: String)
    ensures
        r@ == decimal(n as nat),
{
    let mut v: Vec<char> = Vec::new();
    push_decimal(n, &mut v);
    assert(v@ =~= decimal(n as nat));
    string_of(&v)
}

/// The framing style of a session.
#[derive(Clone, Copy, Debug, PartialEq, Eq, Structural)]
pub enum FrameMode {
    Unknown,
    LineDelimited,
    LengthPrefixed,
}

/// What one inbound line announces.
#[derive(Debug)]
pub enum Inbound {
    /// A `Content-Length` header: after the remaining header lines, exactly
    /// this many bytes of body follow.
    Body(usize),
    /// A complete message on one line, trimmed.
    Message(String),
    /// A blank line, to be skipped.
    Skip,
}

/// The value of an `Inbound`.
pub enum InboundModel {
    Body(usize),
    Message(Seq<char>),
    Skip,
}

impl View for Inbound {
    type V = InboundModel;

    open spec fn view(&self) -> InboundModel {
        match self {
            Inbound::Body(n) => InboundModel::Body(*n),
            Inbound::Message(m) => InboundModel::Message(m@),
            Inbound::Skip => InboundModel::Skip,
        }
    }
}

/// A framing error that ends the session.
#[derive(Clone, Copy, Debug, PartialEq, Eq, Structural)]
pub enum CodecError {
    InvalidContentLength,
}

/// The sentence that describes each framing error.
pub open spec fn codec_error_text(e: CodecError) -> Seq<char> {
    match e {
        CodecError::InvalidContentLength => "Invalid Content-Length value"@,
    }
}

impl CodecError {
    /// A sentence describing the error.
    pub fn message(&self) -> (r: String)
        ensures
            r@ == codec_error_text(*self),
    {
        match self {
            CodecError::InvalidContentLength => String::from_str("Invalid Content-Length value"),
        }
    }
}

/// `content-length:` in lower case.
pub open spec fn header_name() -> Seq<char> {
    seq!['c', 'o', 'n', 't', 'e', 'n', 't', '-', 'l', 'e', 'n', 'g', 't', 'h', ':']
}

/// `c` equals the lower-case character `p` up to ASCII case.
pub open spec fn ascii_ci_eq(c: char, p: char) -> bool {
    c == p || ('a' <= p && p <= 'z' && (c as u32) + 32 == (p as u32))
}

/// `t` begins with `content-length:` in any ASCII case.
pub open spec fn has_header_prefix(t: Seq<char>) -> bool {
    t.len() >= header_name().len() && forall|i: int|
        0 <= i < header_name().len() ==> ascii_ci_eq(#[trigger] t[i], header_name()[i])
}

/// The first position at or after `i` that holds a colon, or the length.
pub open spec fn next_colon(t: Seq<char>, i: int) -> int
    decreases t.len() - i,
{
    if i >= t.len() {
        t.len() as int
    } else if t[i] == ':' {
        i
    } else {
        next_colon(t, i + 1)
    }
}

/// The text between the header's colon and the next colon (or the end).
pub open spec fn length_field(t: Seq<char>) -> Seq<char> {
    t.subrange(header_name().len() as int, next_colon(t, header_name().len() as int))
}

/// What one inbound line announces: a trimmed line that starts with
/// `content-length:` (any ASCII case) gives the length that follows the colon;
/// a blank line is skipped; any other line is a message on its own.
pub open spec fn line_event(line: Seq<char>) -> Result<InboundModel, CodecError> {
    let t = trim_seq(line);
    if has_header_prefix(t) {
        match parse_usize(trim_seq(length_field(t))) {
            Some(n) => Ok(InboundModel::Body(n)),
            None => Err(CodecError::InvalidContentLength),
        }
    } else if t.len() == 0 {
        Ok(InboundModel::Skip)
    } else {
        Ok(InboundModel::Message(t))
    }
}

/// The framing after a line: a line that starts with `content-length:`
/// fixes length-prefixed framing for good, before its value is read and
/// whether or not it reads; a first one-line message fixes line-delimited
/// framing; a blank line changes nothing.
pub open spec fn next_mode(m: FrameMode, line: Seq<char>) -> FrameMode {
    let t = trim_seq(line);
    if has_header_prefix(t) {
        FrameMode::LengthPrefixed
    } else if t.len() > 0 && m == FrameMode::Unknown {
        FrameMode::LineDelimited
    } else {
        m
    }
}

/// The bytes written for `json` (of `nbytes` UTF-8 bytes) under framing `m`.
pub open spec fn outbound(m: FrameMode, json: Seq<char>, nbytes: nat) -> Seq<char> {
    if m == FrameMode::LengthPrefixed {
        "Content-Length: "@ + decimal(nbytes) + "\r\n\r\n"@ + json
    } else {
        json + "\n"@
    }
}

fn ascii_ci_eq_exec(c: char, p: char) -> (b: bool)
    ensures
        b == ascii_ci_eq(c, p),
{
    c == p || ('a' <= p && p <= 'z' && (c as u32) + 32 == (p as u32))
}

/// Whether the trimmed line `t` starts with `content-length:` in any ASCII case.
fn header_prefix(t: &Vec<char>) -> (b: bool)
    ensures
        b == has_header_prefix(t@),
{
    let name = vec!['c', 'o', 'n', 't', 'e', 'n', 't', '-', 'l', 'e', 'n', 'g', 't', 'h', ':'];
    assert(name@ == header_name());
    if t.len() < name.len() {
        return false;
    }
    let mut i: usize = 0;
    while i < name.len()
        invariant
            name@ == header_name(),
            t@.len() >= name@.len(),
            i <= name@.len(),
            forall|k: int| 0 <= k < i ==> ascii_ci_eq(#[trigger] t@[k], header_name()[k]),
        decreases name@.len() - i,
    {
        if !ascii_ci_eq_exec(t[i], name[i]) {
            return false;
        }
        i += 1;
    }
    true
}

/// The characters of `t` from `from` up to the next colon (or the end).
fn until_colon(t: &Vec<char>, from: usize) -> (r: Vec<char>)
    requires
        from <= t@.len(),
    ensures
        r@ == t@.subrange(from as int, next_colon(t@, from as int)),
{
    let mut i: usize = from;
    let mut r: Vec<char> = Vec::new();
    while i < t.len() && t[i] != ':'
        invariant
            from <= i <= t@.len(),
            next_colon(t@, from as int) == next_colon(t@, i as int),
            r@ == t@.subrange(from as int, i as int),
        decreases t@.len() - i,
    {
        r.push(t[i]);
        proof {
            assert(t@.subrange(from as int, i + 1) =~= t@.subrange(from as int, i as int).push(
                t@[i as int],
            ));
        }
        i += 1;
    }
    r
}

/// Tells what one inbound line announces.
pub fn classify_line(line: &str) -> (r: Result<Inbound, CodecError>)
    ensures
        match r {
            Ok(ev) => line_event(line@) == Ok::<InboundModel, CodecError>(ev@),
            Err(e) => line_event(line@) == Err::<InboundModel, CodecError>(e),
        },
{
    let t = trim_chars(&chars_of(line));
    if header_prefix(&t) {
        let field = until_colon(&t, 15);
        match parse_usize_chars(&trim_chars(&field)) {
            Some(n) => Ok(Inbound::Body(n)),
            None => Err(CodecError::InvalidContentLength),
        }
    } else if t.len() == 0 {
        Ok(Inbound::Skip)
    } else {
        Ok(Inbound::Message(string_of(&t)))
    }
}

/// Whether a header line is blank, which ends the headers.
pub fn is_header_end(line: &str) -> (b: bool)
    ensures
        b == (trim_seq(line@).len() == 0),
{
    trim_chars(&chars_of(line)).len() == 0
}

/// The codec state of one session.
pub struct FrameCodec {
    pub mode: FrameMode,
}

impl FrameCodec {
    /// A session whose framing is not yet known.
    pub fn new() -> (r: FrameCodec)
        ensures
            r.mode == FrameMode::Unknown,
    {
        FrameCodec { mode: FrameMode::Unknown }
    }

    /// Reads the first line of a message and updates the framing.
    pub fn read_line_event(&mut self, line: &str) -> (r: Result<Inbound, CodecError>)
        ensures
            match r {
                Ok(ev) => line_event(line@) == Ok::<InboundModel, CodecError>(ev@),
                Err(e) => line_event(line@) == Err::<InboundModel, CodecError>(e),
            },
            final(self).mode == next_mode(old(self).mode, line@),
    {
        let t = trim_chars(&chars_of(line));
        if header_prefix(&t) {
            self.mode = FrameMode::LengthPrefixed;
        } else if t.len() > 0 && self.mode == FrameMode::Unknown {
            self.mode = FrameMode::LineDelimited;
        }
        classify_line(line)
    }

    /// Frames an outbound message in the session's style: a `Content-Length`
    /// header and a blank line before it once the session is length-prefixed,
    /// else a newline after it.
    pub fn encode(&self, json: &str) -> (r: String)
        ensures
            r@ == outbound(self.mode, json@, json.len() as nat),
    {
        if self.mode == FrameMode::LengthPrefixed {
            let mut out = String::from_str("Content-Length: ");
            let n = json.len();
            let digits = decimal_string(n);
            out.append(digits.as_str());
            out.append("\r\n\r\n");
            out.append(json);
            out
        } else {
            let mut out = String::from_str(json);
            out.append("\n");
            out
        }
    }
}

} // verus!
