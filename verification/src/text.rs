//! Character-level text helpers shared by configuration parsing, header
//! handling and trace assembly.
//!
//! Every helper is stated over `Seq<char>`, the view of `str` / `String`.
//! Where a helper mirrors a small `std` routine (`str::trim`,
//! `str::to_ascii_lowercase`, `u64::from_str`), the spec function next to it
//! is the whole documented behaviour of that routine.

use vstd::prelude::*;

verus! {

/// `String::push` appends one character.
pub assume_specification[ String::push ](s: &mut String, ch: char)
    ensures
        final(s)@ == old(s)@.push(ch),
;

/// The Unicode `White_Space` property, which `char::is_whitespace` and
/// therefore `str::trim` use.
pub open spec fn is_unicode_whitespace(c: char) -> bool {
    let u = c as u32;
    ||| 0x09 <= u <= 0x0D
    ||| u == 0x20
    ||| u == 0x85
    ||| u == 0xA0
    ||| u == 0x1680
    ||| 0x2000 <= u <= 0x200A
    ||| u == 0x2028
    ||| u == 0x2029
    ||| u == 0x202F
    ||| u == 0x205F
    ||| u == 0x3000
}

/// `s` without its leading whitespace.
pub open spec fn trim_start(s: Seq<char>) -> Seq<char>
    decreases s.len(),
{
    if s.len() > 0 && is_unicode_whitespace(s[0]) {
        trim_start(s.drop_first())
    } else {
        s
    }
}

/// `s` without its trailing whitespace.
pub open spec fn trim_end(s: Seq<char>) -> Seq<char>
    decreases s.len(),
{
    if s.len() > 0 && is_unicode_whitespace(s.last()) {
        trim_end(s.drop_last())
    } else {
        s
    }
}

/// `str::trim`: leading and trailing whitespace removed.
pub open spec fn trim(s: Seq<char>) -> Seq<char> {
    trim_end(trim_start(s))
}

/// `char::to_ascii_lowercase`.
pub open spec fn ascii_lower_char(c: char) -> char {
    if 'A' <= c && c <= 'Z' {
        ((c as u32) + 32) as char
    } else {
        c
    }
}

/// `str::to_ascii_lowercase`.
pub open spec fn ascii_lowercase(s: Seq<char>) -> Seq<char> {
    s.map_values(|c: char| ascii_lower_char(c))
}

/// `str::eq_ignore_ascii_case`.
pub open spec fn eq_ignore_ascii_case(a: Seq<char>, b: Seq<char>) -> bool {
    ascii_lowercase(a) == ascii_lowercase(b)
}

/// `s` starts with `p`.
pub open spec fn has_prefix(s: Seq<char>, p: Seq<char>) -> bool {
    p.len() <= s.len() && s.take(p.len() as int) == p
}

/// The characters of a `str`, in order.
pub fn chars_of(s: &str) -> (v: Vec<char>)
    ensures
        v@ == s@,
{
    let mut v: Vec<char> = Vec::new();
    for c in it: s.chars()
        invariant
            it.seq() == s@,
            v@ == it.seq().take(it.index() as int),
    {
        v.push(c);
    }
    v
}

/// A `String` holding exactly the given characters.
pub fn string_from_chars(v: &[char]) -> (s: String)
    ensures
        s@ == v@,
{
    let mut s = String::new();
    let mut i: usize = 0;
    while i < v.len()
        invariant
            i <= v.len(),
            s@ == v@.take(i as int),
        decreases v.len() - i,
    {
        s.push(v[i]);
        i = i + 1;
        assert(s@ == v@.take(i as int));
    }
    assert(v@.take(v.len() as int) == v@);
    s
}

/// Character-wise equality of two character slices.
pub fn chars_eq(a: &[char], b: &[char]) -> (r: bool)
    ensures
        r == (a@ == b@),
{
    if a.len() != b.len() {
        return false;
    }
    let mut i: usize = 0;
    while i < a.len()
        invariant
            a.len() == b.len(),
            i <= a.len(),
            a@.take(i as int) == b@.take(i as int),
        decreases a.len() - i,
    {
        if a[i] != b[i] {
            assert(a@[i as int] != b@[i as int]);
            return false;
        }
        assert(a@.take(i + 1) == a@.take(i as int).push(a@[i as int]));
        assert(b@.take(i + 1) == b@.take(i as int).push(b@[i as int]));
        i = i + 1;
    }
    assert(a@ == a@.take(a.len() as int));
    assert(b@ == b@.take(b.len() as int));
    true
}

/// Whether `s` equals the text of `lit`.
pub fn chars_eq_str(s: &[char], lit: &str) -> (r: bool)
    ensures
        r == (s@ == lit@),
{
    let l = chars_of(lit);
    chars_eq(s, l.as_slice())
}

/// `char::is_whitespace`.
pub fn is_whitespace_char(c: char) -> (r: bool)
    ensures
        r == is_unicode_whitespace(c),
{
    let u: u32 = c as u32;
    (0x09 <= u && u <= 0x0D) || u == 0x20 || u == 0x85 || u == 0xA0 || u == 0x1680 || (0x2000 <= u
        && u <= 0x200A) || u == 0x2028 || u == 0x2029 || u == 0x202F || u == 0x205F || u == 0x3000
}

/// `char::to_ascii_lowercase`.
pub fn ascii_lower(c: char) -> (r: char)
    ensures
        r == ascii_lower_char(c),
{
    if 'A' <= c && c <= 'Z' {
        let b: u8 = c as u8;
        (b + 32) as char
    } else {
        c
    }
}

/// `str::to_ascii_lowercase` on a character slice.
pub fn to_ascii_lowercase(s: &[char]) -> (r: Vec<char>)
    ensures
        r@ == ascii_lowercase(s@),
{
    let mut r: Vec<char> = Vec::new();
    let mut i: usize = 0;
    while i < s.len()
        invariant
            i <= s.len(),
            r@ == ascii_lowercase(s@.take(i as int)),
        decreases s.len() - i,
    {
        r.push(ascii_lower(s[i]));
        assert(ascii_lowercase(s@.take(i + 1)) == ascii_lowercase(s@.take(i as int)).push(
            ascii_lower_char(s@[i as int]),
        ));
        i = i + 1;
    }
    assert(s@.take(s.len() as int) == s@);
    r
}

/// `str::trim` on a character slice.
pub fn trim_chars(s: &[char]) -> (r: Vec<char>)
    ensures
        r@ == trim(s@),
{
    let n = s.len();
    let mut start: usize = 0;
    assert(s@.subrange(0, n as int) == s@);
    while start < n && is_whitespace_char(s[start])
        invariant
            n == s.len(),
            start <= n,
            trim_start(s@) == trim_start(s@.subrange(start as int, n as int)),
        decreases n - start,
    {
        assert(s@.subrange(start as int, n as int).drop_first() == s@.subrange(
            start + 1,
            n as int,
        ));
        start = start + 1;
    }
    let ghost front = s@.subrange(start as int, n as int);
    assert(trim_start(s@) == front);
    let mut end: usize = n;
    while end > start && is_whitespace_char(s[end - 1])
        invariant
            n == s.len(),
            start <= end <= n,
            front == s@.subrange(start as int, n as int),
            trim_end(front) == trim_end(s@.subrange(start as int, end as int)),
        decreases end - start,
    {
        assert(s@.subrange(start as int, end as int).drop_last() == s@.subrange(
            start as int,
            end - 1,
        ));
        end = end - 1;
    }
    let mut r: Vec<char> = Vec::new();
    let mut i: usize = start;
    while i < end
        invariant
            start <= i <= end <= n,
            n == s.len(),
            r@ == s@.subrange(start as int, i as int),
        decreases end - i,
    {
        r.push(s[i]);
        assert(s@.subrange(start as int, i + 1) == s@.subrange(start as int, i as int).push(
            s@[i as int],
        ));
        i = i + 1;
    }
    r
}

/// What `String::from_utf8_lossy` gives for some bytes: the UTF-8 text, with
/// each invalid sequence replaced by U+FFFD.
pub uninterp spec fn utf8_lossy(bytes: Seq<u8>) -> Seq<char>;

/// Calls `String::from_utf8_lossy`; claims that the text is the named one
/// for the bytes and, as documented, is the decoded text when the bytes are
/// valid UTF-8.
#[verifier::external_body]
pub(crate) fn utf8_lossy_string(bytes: &[u8]) -> (s: String)
    ensures
        s@ == utf8_lossy(bytes@),
        vstd::utf8::valid_utf8(bytes@) ==> s@ == vstd::utf8::decode_utf8(bytes@),
{
    String::from_utf8_lossy(bytes).into_owned()
}

/// The reasons `u64::from_str` / `usize::from_str` reject a string
/// (`std::num::IntErrorKind`, the kinds an unsigned parse can give).
#[derive(Clone, Copy, Debug, PartialEq, Eq, Structural)]
pub enum IntParseError {
    /// The input was empty.
    Empty,
    /// A character other than an ASCII digit (after an optional `+`).
    InvalidDigit,
    /// The value does not fit the target type.
    PosOverflow,
}

/// The decimal value of an ASCII digit.
pub open spec fn digit_value(c: char) -> nat {
    ((c as u32) - 0x30) as nat
}

/// An ASCII digit `0`..`9`.
pub open spec fn is_ascii_digit(c: char) -> bool {
    0x30 <= (c as u32) <= 0x39
}

/// Left-to-right accumulation of decimal digits that stops at the first
/// non-digit or at the first prefix whose value exceeds `max`.
pub open spec fn scan_digits(s: Seq<char>, max: nat) -> Result<nat, IntParseError>
    decreases s.len(),
{
    if s.len() == 0 {
        Ok(0)
    } else {
        match scan_digits(s.drop_last(), max) {
            Err(e) => Err(e),
            Ok(acc) => if !is_ascii_digit(s.last()) {
                Err(IntParseError::InvalidDigit)
            } else if acc * 10 + digit_value(s.last()) > max {
                Err(IntParseError::PosOverflow)
            } else {
                Ok(acc * 10 + digit_value(s.last()))
            },
        }
    }
}

/// `from_str` of an unsigned integer type whose largest value is `max`:
/// an optional leading `+`, then one or more ASCII digits.
pub open spec fn parse_unsigned(s: Seq<char>, max: nat) -> Result<nat, IntParseError> {
    if s.len() == 0 {
        Err(IntParseError::Empty)
    } else if s[0] == '+' {
        if s.len() == 1 {
            Err(IntParseError::InvalidDigit)
        } else {
            scan_digits(s.drop_first(), max)
        }
    } else {
        scan_digits(s, max)
    }
}

/// Parse an unsigned decimal number no larger than `max`, as `u64::from_str`
/// and `usize::from_str` do.
pub fn parse_unsigned_decimal(s: &[char], max: u64) -> (r: Result<u64, IntParseError>)
    ensures
        match parse_unsigned(s@, max as nat) {
            Ok(v) => r == Ok::<u64, IntParseError>(v as u64),
            Err(e) => r == Err::<u64, IntParseError>(e),
        },
{
    if s.len() == 0 {
        return Err(IntParseError::Empty);
    }
    let mut i: usize = 0;
    if s[0] == '+' {
        if s.len() == 1 {
            return Err(IntParseError::InvalidDigit);
        }
        i = 1;
    }
    let first = i;
    let ghost body = s@.skip(first as int);
    proof {
        if first == 1 {
            assert(body =~= s@.drop_first());
        } else {
            assert(body =~= s@);
        }
        assert(parse_unsigned(s@, max as nat) == scan_digits(body, max as nat));
    }
    let mut acc: u64 = 0;
    while i < s.len()
        invariant
            first <= i <= s.len(),
            first <= 1,
            body == s@.skip(first as int),
            parse_unsigned(s@, max as nat) == scan_digits(body, max as nat),
            acc <= max,
            scan_digits(s@.subrange(first as int, i as int), max as nat) == Ok::<
                nat,
                IntParseError,
            >(acc as nat),
        decreases s.len() - i,
    {
        let c = s[i];
        let ghost pre = s@.subrange(first as int, i as int);
        let ghost next = s@.subrange(first as int, i + 1);
        assert(next.drop_last() == pre);
        assert(next.last() == c);
        let u: u32 = c as u32;
        if u < 0x30 || u > 0x39 {
            proof {
                assert(body.take((i - first) + 1) == next);
                assert(scan_digits(next, max as nat) is Err);
                lemma_scan_error_sticks(body, (i - first) as nat + 1, max as nat);
                assert(parse_unsigned(s@, max as nat) == scan_digits(body, max as nat));
            }
            return Err(IntParseError::InvalidDigit);
        }
        let d: u64 = (u - 0x30) as u64;
        let wide: u128 = (acc as u128) * 10 + (d as u128);
        if wide > max as u128 {
            proof {
                assert(body.take((i - first) + 1) == next);
                assert(scan_digits(next, max as nat) is Err);
                lemma_scan_error_sticks(body, (i - first) as nat + 1, max as nat);
                assert(parse_unsigned(s@, max as nat) == scan_digits(body, max as nat));
            }
            return Err(IntParseError::PosOverflow);
        }
        acc = wide as u64;
        i = i + 1;
    }
    assert(s@.subrange(first as int, s.len() as int) == body);
    Ok(acc)
}

/// Once a prefix of the digits fails, every longer prefix fails the same way.
proof fn lemma_scan_error_sticks(s: Seq<char>, k: nat, max: nat)
    requires
        k <= s.len(),
        scan_digits(s.take(k as int), max) is Err,
    ensures
        scan_digits(s, max) == scan_digits(s.take(k as int), max),
    decreases s.len() - k,
{
    if k < s.len() {
        let k1: nat = k + 1;
        assert(s.take(k1 as int).drop_last() =~= s.take(k as int));
        assert(scan_digits(s.take(k1 as int), max) is Err);
        lemma_scan_error_sticks(s, k1, max);
    } else {
        assert(s.take(k as int) == s);
    }
}

/// The message `std` gives for each integer-parse failure
/// (`<ParseIntError as Display>`).
pub fn int_parse_error_message(e: IntParseError) -> (m: &'static str)
    ensures
        m@ == int_parse_error_text(e),
{
    match e {
        IntParseError::Empty => "cannot parse integer from empty string",
        IntParseError::InvalidDigit => "invalid digit found in string",
        IntParseError::PosOverflow => "number too large to fit in target type",
    }
}

/// The message text of an integer-parse failure.
pub open spec fn int_parse_error_text(e: IntParseError) -> Seq<char> {
    match e {
        IntParseError::Empty => "cannot parse integer from empty string"@,
        IntParseError::InvalidDigit => "invalid digit found in string"@,
        IntParseError::PosOverflow => "number too large to fit in target type"@,
    }
}

} // verus!
