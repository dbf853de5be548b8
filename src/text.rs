//! Character classification and small string helpers shared by the note logic.
use vstd::prelude::*;

verus! {

/// Unicode alphabetic property of a character, as std computes it.
pub uninterp spec fn alphabetic(c: char) -> bool;

/// Unicode numeric property of a character, as std computes it.
pub uninterp spec fn numeric(c: char) -> bool;

/// Unicode white-space property of a character, as std computes it.
pub uninterp spec fn white_space(c: char) -> bool;

/// Unicode lower-case mapping of a string, as std computes it.
pub uninterp spec fn lower_of(s: Seq<char>) -> Seq<char>;

/// A character is alphanumeric when it is alphabetic or numeric.
pub open spec fn alphanumeric(c: char) -> bool {
    alphabetic(c) || numeric(c)
}

pub open spec fn is_ascii_digit_spec(c: char) -> bool {
    '0' <= c && c <= '9'
}

pub open spec fn is_ascii_letter_spec(c: char) -> bool {
    ('a' <= c && c <= 'z') || ('A' <= c && c <= 'Z')
}

/// Relies on `char::is_alphabetic`: the Unicode Alphabetic property.
#[verifier::external_body]
pub fn is_alphabetic(c: char) -> (r: bool)
    ensures
        r == alphabetic(c),
        is_ascii_letter_spec(c) ==> r,
        is_ascii_digit_spec(c) ==> !r,
{
    c.is_alphabetic()
}

/// Relies on `char::is_numeric`: the Unicode numeric general categories.
#[verifier::external_body]
pub fn is_numeric(c: char) -> (r: bool)
    ensures
        r == numeric(c),
        is_ascii_digit_spec(c) ==> r,
        is_ascii_letter_spec(c) ==> !r,
{
    c.is_numeric()
}

/// Relies on `char::is_whitespace`: the Unicode White_Space property.
#[verifier::external_body]
pub fn is_whitespace(c: char) -> (r: bool)
    ensures
        r == white_space(c),
        c == ' ' || c == '\n' || c == '\t' || c == '\r' ==> r,
{
    c.is_whitespace()
}

/// Relies on `str::to_lowercase`: the result depends on the characters alone.
#[verifier::external_body]
pub fn to_lowercase(s: &str) -> (r: String)
    ensures
        r@ == lower_of(s@),
{
    s.to_lowercase()
}

/// Relies on `String: FromIterator<char>`: the characters are kept in order.
#[verifier::external_body]
pub fn string_from_chars(v: &[char]) -> (r: String)
    ensures
        r@ == v@,
{
    String::from_iter(v)
}

/// The characters of a string, in order.
pub fn chars_of(s: &str) -> (r: Vec<char>)
    ensures
        r@ == s@,
{
    broadcast use vstd::string::axiom_spec_iter;
    let mut v: Vec<char> = Vec::new();
    for c in it: s.chars()
        invariant
            it.seq() == s@,
            v@ == s@.take(it.index() as int),
    {
        v.push(c);
    }
    assert(v@ =~= s@);
    v
}

/// The characters of `t` before the first `c`, or all of `t`.
pub open spec fn before(t: Seq<char>, c: char) -> Seq<char>
    decreases t.len(),
{
    if t.len() == 0 || t[0] == c {
        Seq::empty()
    } else {
        seq![t[0]] + before(t.drop_first(), c)
    }
}

/// Index of the first `c` in `t`, or its length.
pub fn find_char(t: &Vec<char>, c: char) -> (r: usize)
    ensures
        r <= t.len(),
        t@.take(r as int) == before(t@, c),
        forall|k: int| 0 <= k < r ==> t@[k] != c,
        r < t.len() ==> t@[r as int] == c,
{
    let mut i: usize = 0;
    assert(t@.skip(0) =~= t@);
    assert(t@.take(0) + before(t@, c) =~= before(t@, c));
    while i < t.len() && t[i] != c
        invariant
            i <= t.len(),
            forall|k: int| 0 <= k < i ==> t@[k] != c,
            before(t@, c) == t@.take(i as int) + before(t@.skip(i as int), c),
        decreases t.len() - i,
    {
        proof {
            let rest = t@.skip(i as int);
            assert(rest.drop_first() =~= t@.skip(i as int + 1));
            assert(t@.take(i as int + 1) =~= t@.take(i as int) + seq![rest[0]]);
        }
        i = i + 1;
    }
    proof {
        let rest = t@.skip(i as int);
        assert(before(rest, c) =~= Seq::<char>::empty());
        assert(t@.take(i as int) + Seq::<char>::empty() =~= t@.take(i as int));
    }
    i
}

/// `s` without leading white space.
pub open spec fn trim_start_ws(s: Seq<char>) -> Seq<char>
    decreases s.len(),
{
    if s.len() > 0 && white_space(s[0]) {
        trim_start_ws(s.drop_first())
    } else {
        s
    }
}

/// `s` without trailing white space.
pub open spec fn trim_end_ws(s: Seq<char>) -> Seq<char>
    decreases s.len(),
{
    if s.len() > 0 && white_space(s.last()) {
        trim_end_ws(s.drop_last())
    } else {
        s
    }
}

/// `s` without white space at either end.
pub open spec fn trim_ws(s: Seq<char>) -> Seq<char> {
    trim_end_ws(trim_start_ws(s))
}

/// The characters `t[start..end]` as a vector.
pub fn copy_range(t: &Vec<char>, start: usize, end: usize) -> (r: Vec<char>)
    requires
        start <= end <= t.len(),
    ensures
        r@ == t@.subrange(start as int, end as int),
{
    let mut out: Vec<char> = Vec::new();
    let mut k: usize = start;
    while k < end
        invariant
            start <= k <= end <= t.len(),
            out@ == t@.subrange(start as int, k as int),
        decreases end - k,
    {
        out.push(t[k]);
        assert(out@ =~= t@.subrange(start as int, k as int + 1));
        k = k + 1;
    }
    out
}

/// `t[start..end]` without white space at either end.
pub fn trim_range(t: &Vec<char>, start: usize, end: usize) -> (r: Vec<char>)
    requires
        start <= end <= t.len(),
    ensures
        r@ == trim_ws(t@.subrange(start as int, end as int)),
{
    let mut a: usize = start;
    assert(t@.subrange(start as int, end as int) =~= t@.subrange(a as int, end as int));
    while a < end && is_whitespace(t[a])
        invariant
            start <= a <= end <= t.len(),
            trim_start_ws(t@.subrange(start as int, end as int)) == trim_start_ws(
                t@.subrange(a as int, end as int),
            ),
        decreases end - a,
    {
        assert(t@.subrange(a as int, end as int).drop_first() =~= t@.subrange(a as int + 1, end as int));
        a = a + 1;
    }
    let mut b: usize = end;
    while b > a && is_whitespace(t[b - 1])
        invariant
            start <= a <= b <= end <= t.len(),
            trim_ws(t@.subrange(start as int, end as int)) == trim_end_ws(t@.subrange(a as int, b as int)),
        decreases b,
    {
        assert(t@.subrange(a as int, b as int).drop_last() =~= t@.subrange(a as int, b as int - 1));
        b = b - 1;
    }
    copy_range(t, a, b)
}

/// The value of a run of ASCII decimal digits, most significant first.
pub open spec fn digits_value(s: Seq<char>) -> nat
    decreases s.len(),
{
    if s.len() == 0 {
        0
    } else {
        digits_value(s.drop_last()) * 10 + digit_of(s.last())
    }
}

/// The value of one ASCII decimal digit.
pub open spec fn digit_of(c: char) -> nat {
    if is_ascii_digit_spec(c) {
        (c as int - '0' as int) as nat
    } else {
        0
    }
}

/// What parsing a decimal `u32` from `s` yields: every character an ASCII
/// digit, at least one of them, and a value that fits.
pub open spec fn parse_u32_spec(s: Seq<char>) -> Option<u32> {
    if s.len() > 0 && (forall|i: int| 0 <= i < s.len() ==> is_ascii_digit_spec(#[trigger] s[i]))
        && digits_value(s) <= u32::MAX {
        Some(digits_value(s) as u32)
    } else {
        None
    }
}

/// Parses a decimal `u32` written with ASCII digits only.
pub fn parse_u32(s: &[char]) -> (r: Option<u32>)
    ensures
        r == parse_u32_spec(s@),
{
    if s.len() == 0 {
        return None;
    }
    let mut value: u32 = 0;
    let mut i: usize = 0;
    while i < s.len()
        invariant
            0 <= i <= s.len(),
            forall|k: int| 0 <= k < i ==> is_ascii_digit_spec(#[trigger] s@[k]),
            value as nat == digits_value(s@.take(i as int)),
        decreases s.len() - i,
    {
        let c = s[i];
        assert(s@.take(i as int + 1).drop_last() =~= s@.take(i as int));
        if !('0' <= c && c <= '9') {
            return None;
        }
        let d: u32 = (c as u32) - ('0' as u32);
        if value > 429496729 || (value == 429496729 && d > 5) {
            proof {
                if forall|k: int| 0 <= k < s@.len() ==> is_ascii_digit_spec(#[trigger] s@[k]) {
                    lemma_digits_value_prefix_grows(s@, i as int + 1);
                }
            }
            return None;
        }
        value = value * 10 + d;
        i = i + 1;
    }
    assert(s@.take(s.len() as int) =~= s@);
    Some(value)
}

/// A longer run of digits never has a smaller value than its prefix.
proof fn lemma_digits_value_prefix_grows(s: Seq<char>, n: int)
    requires
        0 <= n <= s.len(),
    ensures
        digits_value(s.take(n)) <= digits_value(s),
    decreases s.len() - n,
{
    if n < s.len() {
        assert(s.take(n + 1).drop_last() =~= s.take(n));
        lemma_digits_value_prefix_grows(s, n + 1);
    } else {
        assert(s.take(n) =~= s);
    }
}

} // verus!
