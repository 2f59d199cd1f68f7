//! Scalar coercion: the raw bytes of a non-file part become a [`Value`].
//!
//! The policy is deliberately narrow. Bytes that are not UTF-8 give `Null`;
//! a decimal integer literal (an optional leading `-`, then digits, nothing
//! else) that fits in `isize` gives a `Number`; the exact words `true` and
//! `false` give a `Bool`; any other text is kept verbatim as `Text`.
use vstd::prelude::*;
use crate::text::same_text;
use crate::value::{Datum, Value};

verus! {

pub open spec fn is_digit(c: char) -> bool {
    '0' <= c && c <= '9'
}

pub open spec fn digit_value(c: char) -> int {
    c as int - '0' as int
}

/// The number that a string of decimal digits denotes.
pub open spec fn digits_value(s: Seq<char>) -> int
    decreases s.len(),
{
    if s.len() == 0 {
        0
    } else {
        10 * digits_value(s.drop_last()) + digit_value(s.last())
    }
}

pub open spec fn all_digits(s: Seq<char>) -> bool {
    forall|i: int| 0 <= i < s.len() ==> is_digit(#[trigger] s[i])
}

pub open spec fn is_negative_literal(s: Seq<char>) -> bool {
    s.len() > 0 && s[0] == '-'
}

/// The digits of a literal, after its sign.
pub open spec fn literal_digits(s: Seq<char>) -> Seq<char> {
    if is_negative_literal(s) {
        s.drop_first()
    } else {
        s
    }
}

/// An optional `-` followed by one or more decimal digits.
pub open spec fn is_integer_literal(s: Seq<char>) -> bool {
    literal_digits(s).len() > 0 && all_digits(literal_digits(s))
}

pub open spec fn literal_value(s: Seq<char>) -> int {
    if is_negative_literal(s) {
        -digits_value(literal_digits(s))
    } else {
        digits_value(literal_digits(s))
    }
}

/// The text is an integer literal whose value fits in `isize`.
pub open spec fn parses_as_number(s: Seq<char>) -> bool {
    is_integer_literal(s) && isize::MIN <= literal_value(s) <= isize::MAX
}

pub open spec fn true_word() -> Seq<char> {
    seq!['t', 'r', 'u', 'e']
}

pub open spec fn false_word() -> Seq<char> {
    seq!['f', 'a', 'l', 's', 'e']
}

/// The value that a decoded text coerces to.
pub open spec fn coerce_text_spec(s: Seq<char>) -> Datum {
    if parses_as_number(s) {
        Datum::Number(literal_value(s))
    } else if s == true_word() {
        Datum::Bool(true)
    } else if s == false_word() {
        Datum::Bool(false)
    } else {
        Datum::Text(s)
    }
}

/// The value that raw bytes coerce to, given how they decode as UTF-8.
pub open spec fn coerce_decoded_spec(decoded: Option<Seq<char>>) -> Datum {
    match decoded {
        Some(s) => coerce_text_spec(s),
        None => Datum::Null,
    }
}

/// The text that well-formed UTF-8 bytes decode to; `None` for other bytes.
pub uninterp spec fn utf8_text(b: Seq<u8>) -> Option<Seq<char>>;

/// Relies on `std::str::from_utf8`: it succeeds exactly on well-formed UTF-8,
/// and the text it returns depends on the bytes alone.
#[verifier::external_body]
fn decode_utf8(bytes: &[u8]) -> (r: Option<&str>)
    ensures
        r is Some <==> utf8_text(bytes@) is Some,
        r is Some ==> r.unwrap()@ == utf8_text(bytes@).unwrap(),
{
    std::str::from_utf8(bytes).ok()
}

proof fn lemma_digits_value_nonneg(s: Seq<char>)
    requires
        all_digits(s),
    ensures
        digits_value(s) >= 0,
    decreases s.len(),
{
    if s.len() > 0 {
        lemma_digits_value_nonneg(s.drop_last());
    }
}

/// A longer run of digits denotes at least what its prefix denotes.
proof fn lemma_digits_value_prefix(s: Seq<char>, k: int)
    requires
        all_digits(s),
        0 <= k <= s.len(),
    ensures
        digits_value(s.subrange(0, k)) <= digits_value(s),
    decreases s.len() - k,
{
    if k < s.len() {
        let p = s.subrange(0, k + 1);
        assert(p.drop_last() == s.subrange(0, k));
        assert(all_digits(p));
        lemma_digits_value_nonneg(s.subrange(0, k));
        lemma_digits_value_prefix(s, k + 1);
    } else {
        assert(s.subrange(0, k) == s);
    }
}

/// Reads a decimal integer literal; `None` when the text is not one or its
/// value does not fit in `isize`.
pub fn parse_integer(s: &str) -> (r: Option<isize>)
    ensures
        r is Some <==> parses_as_number(s@),
        r is Some ==> r.unwrap() as int == literal_value(s@),
{
    let n = s.unicode_len();
    let negative = n > 0 && s.get_char(0) == '-';
    let start: usize = if negative { 1 } else { 0 };
    let ghost d = literal_digits(s@);
    assert(d == s@.subrange(start as int, n as int));
    if start == n {
        return None;
    }
    // Large enough for the magnitude of `isize::MIN`.
    let limit: i128 = isize::MAX as i128 + 1;
    let mut acc: i128 = 0;
    let mut i: usize = start;
    while i < n
        invariant
            n == s@.len(),
            start <= i <= n,
            d == s@.subrange(start as int, n as int),
            d == literal_digits(s@),
            all_digits(d.subrange(0, i - start)),
            acc as int == digits_value(d.subrange(0, i - start)),
            0 <= acc <= limit,
            limit == isize::MAX + 1,
        decreases n - i,
    {
        let c = s.get_char(i);
        let ghost k: int = i - start;
        assert(d[k] == c);
        if !('0' <= c && c <= '9') {
            assert(!all_digits(d));
            return None;
        }
        let ghost p = d.subrange(0, k + 1);
        assert(p.drop_last() == d.subrange(0, k));
        assert(p.last() == c);
        acc = acc * 10 + (c as u32 - '0' as u32) as i128;
        assert(all_digits(p));
        if acc > limit {
            proof {
                if all_digits(d) {
                    lemma_digits_value_prefix(d, k + 1);
                }
            }
            return None;
        }
        i = i + 1;
    }
    assert(d.subrange(0, n - start) == d);
    if negative {
        Some((-acc) as isize)
    } else if acc <= isize::MAX as i128 {
        Some(acc as isize)
    } else {
        None
    }
}

/// Coerces decoded text to a value.
pub fn coerce_text(s: &str) -> (r: Value)
    ensures
        r@ == coerce_text_spec(s@),
{
    match parse_integer(s) {
        Some(n) => Value::Number(n),
        None => {
            proof {
                reveal_strlit("true");
                reveal_strlit("false");
            }
            if same_text(s, "true") {
                assert("true"@ == true_word());
                Value::Bool(true)
            } else if same_text(s, "false") {
                assert("false"@ == false_word());
                Value::Bool(false)
            } else {
                assert("true"@ == true_word());
                assert("false"@ == false_word());
                Value::Text(s.to_owned())
            }
        }
    }
}

/// Coerces the raw bytes of a scalar part to a value. Never fails: bytes
/// that are not UTF-8 give `Null`.
pub fn coerce_scalar(bytes: &[u8]) -> (r: Value)
    ensures
        r@ == coerce_decoded_spec(utf8_text(bytes@)),
{
    match decode_utf8(bytes) {
        Some(s) => coerce_text(s),
        None => Value::Null,
    }
}

} // verus!
