//! Text helpers: trimming, the normal form used to compare transcripts, and
//! decimal rendering for error messages.
//!
//! Unicode classification and case mapping come from the standard library.
//! Whitespace is a short list and is written out. The tables of letters,
//! digits and case are not restated here; each gets a name, and the
//! contracts below are exact over those names.

use vstd::prelude::*;
use vstd::string::StringExecFns;

verus! {

/// Whether `c` has the Unicode `White_Space` property: the controls U+0009
/// to U+000D, the space, U+0085, U+00A0, U+1680, U+2000 to U+200A, U+2028,
/// U+2029, U+202F, U+205F and U+3000.
pub open spec fn char_is_whitespace(c: char) -> bool {
    let u = c as u32;
    ||| 0x09 <= u <= 0x0D
    ||| u == 0x20
    ||| u == 0x85
    ||| u == 0xA0
    ||| u == 0x1680
    ||| 0x2000 <= u <= 0x200A
    ||| u == 0x2028
    ||| u == 0x2029
    ||| u == 0x202F
    ||| u == 0x205F
    ||| u == 0x3000
}

/// Whether `c` is alphabetic or numeric in Unicode's sense.
pub uninterp spec fn char_is_alphanumeric(c: char) -> bool;

/// The lowercase form of a whole string under Unicode's case mapping.
pub uninterp spec fn lowercase_of(s: Seq<char>) -> Seq<char>;

/// `char::is_whitespace`: whether the character has the `White_Space`
/// property.
#[verifier::external_body]
fn is_whitespace(c: char) -> (b: bool)
    ensures
        b == char_is_whitespace(c),
{
    c.is_whitespace()
}

/// `char::is_alphanumeric`: the result depends on the character alone.
#[verifier::external_body]
fn is_alphanumeric(c: char) -> (b: bool)
    ensures
        b == char_is_alphanumeric(c),
{
    c.is_alphanumeric()
}

/// `str::to_lowercase`: the result is the lowercase form of the argument and
/// depends on nothing else.
#[verifier::external_body]
fn to_lowercase(s: &str) -> (lower: String)
    ensures
        lower@ == lowercase_of(s@),
{
    s.to_lowercase()
}

/// `str::trim`: the argument without its leading and trailing run of
/// `White_Space` characters.
#[verifier::external_body]
fn trim(s: &str) -> (inner: &str)
    ensures
        inner@ == trimmed(s@),
{
    s.trim()
}

/// `String::push`: appends one character.
#[verifier::external_body]
fn push_char(s: &mut String, c: char)
    ensures
        final(s)@ == old(s)@.push(c),
{
    s.push(c)
}

/// `s` without its leading whitespace.
pub open spec fn trim_start(s: Seq<char>) -> Seq<char>
    decreases s.len(),
{
    if s.len() > 0 && char_is_whitespace(s[0]) {
        trim_start(s.drop_first())
    } else {
        s
    }
}

/// `s` without its trailing whitespace.
pub open spec fn trim_end(s: Seq<char>) -> Seq<char>
    decreases s.len(),
{
    if s.len() > 0 && char_is_whitespace(s.last()) {
        trim_end(s.drop_last())
    } else {
        s
    }
}

/// `s` without leading and trailing whitespace.
pub open spec fn trimmed(s: Seq<char>) -> Seq<char> {
    trim_end(trim_start(s))
}

/// Whether a character survives normalisation.
pub open spec fn comparable(c: char) -> bool {
    char_is_alphanumeric(c) || char_is_whitespace(c)
}

/// `comparable` as a predicate value, for filtering.
pub open spec fn is_comparable() -> spec_fn(char) -> bool {
    |c: char| comparable(c)
}

/// The normal form under which two transcripts are compared: everything but
/// letters, digits and whitespace is dropped, and what is left is lowercased.
pub open spec fn normalized(s: Seq<char>) -> Seq<char> {
    lowercase_of(s.filter(is_comparable()))
}

/// An owned copy of `s` without leading and trailing whitespace.
pub fn trimmed_copy(s: &str) -> (out: String)
    ensures
        out@ == trimmed(s@),
{
    String::from_str(trim(s))
}

/// Keeps the letters, digits and whitespace of `s`.
fn keep_comparable(s: &str) -> (kept: String)
    ensures
        kept@ == s@.filter(is_comparable()),
{
    let mut kept = String::new();
    for c in it: s.chars()
        invariant
            it.seq() == s@,
            kept@ == s@.take(it.index()).filter(is_comparable()),
    {
        proof {
            assert(s@.take(it.index() + 1) == s@.take(it.index()).push(c));
            s@.take(it.index()).lemma_filter_push(c, is_comparable());
        }
        let alnum = is_alphanumeric(c);
        let space = is_whitespace(c);
        if alnum || space {
            push_char(&mut kept, c);
        }
    }
    assert(s@.take(s@.len() as int) == s@);
    kept
}

/// Reduces `s` to the normal form used for comparing transcripts.
pub fn normalize_for_comparison(s: &str) -> (out: String)
    ensures
        out@ == normalized(s@),
{
    let kept = keep_comparable(s);
    to_lowercase(kept.as_str())
}

/// The character for a decimal digit.
pub open spec fn digit_char(d: nat) -> char {
    (48 + d) as u8 as char
}

/// The decimal numeral of `n`, without leading zeros.
pub open spec fn decimal(n: nat) -> Seq<char>
    decreases n,
{
    if n < 10 {
        seq![digit_char(n)]
    } else {
        decimal(n / 10).push(digit_char(n % 10))
    }
}

/// A count of hundredths as a numeral with two decimals: `12345` reads
/// `123.45`, and `-7` reads `-0.07`.
pub open spec fn hundredths(n: int) -> Seq<char> {
    let magnitude = if n < 0 {
        (-n) as nat
    } else {
        n as nat
    };
    let sign = if n < 0 {
        seq!['-']
    } else {
        Seq::<char>::empty()
    };
    sign + decimal(magnitude / 100).push('.').push(digit_char(magnitude % 100 / 10)).push(
        digit_char(magnitude % 10),
    )
}

/// Appends one decimal digit to `out`.
fn push_digit(out: &mut String, d: u8)
    requires
        d < 10,
    ensures
        final(out)@ == old(out)@.push(digit_char(d as nat)),
{
    push_char(out, (48 + d) as char);
}

/// Appends the decimal numeral of `n` to `out`.
pub fn push_decimal(out: &mut String, n: u64)
    ensures
        final(out)@ == old(out)@ + decimal(n as nat),
    decreases n,
{
    if n >= 10 {
        push_decimal(out, n / 10);
    }
    push_digit(out, (n % 10) as u8);
    assert(out@ =~= old(out)@ + decimal(n as nat));
}

/// Appends a count of hundredths as a numeral with two decimals to `out`.
pub fn push_hundredths(out: &mut String, n: i64)
    ensures
        final(out)@ == old(out)@ + hundredths(n as int),
{
    let magnitude: u64 = if n < 0 {
        push_char(out, '-');
        (-(n as i128)) as u64
    } else {
        n as u64
    };
    push_decimal(out, magnitude / 100);
    push_char(out, '.');
    push_digit(out, (magnitude % 100 / 10) as u8);
    push_digit(out, (magnitude % 10) as u8);
    assert(out@ =~= old(out)@ + hundredths(n as int));
}

} // verus!
