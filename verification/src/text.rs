//! Byte strings: spans, fields, comparison, decimal numbers.

use vstd::prelude::*;

verus! {

/// Number of bytes from `off` up to the first byte `stop`, or up to the end
/// of `s`.
pub open spec fn span(s: Seq<u8>, off: int, stop: u8) -> nat
    decreases s.len() - off,
{
    if 0 <= off < s.len() && s[off] != stop {
        1 + span(s, off + 1, stop)
    } else {
        0
    }
}

/// The fields that the bytes `sep` part `s` into; an empty string has one
/// empty field, and two separators in a row have an empty field between
/// them.
pub open spec fn split(s: Seq<u8>, sep: u8) -> Seq<Seq<u8>>
    decreases s.len(),
{
    let n = span(s, 0, sep) as int;
    if n >= s.len() {
        seq![s]
    } else {
        seq![s.take(n)] + split(s.skip(n + 1), sep)
    }
}

/// The span from `off + k` in `s` is the span from `k` in what follows `off`.
pub proof fn lemma_span_skip(s: Seq<u8>, off: int, k: int, stop: u8)
    requires
        0 <= off <= s.len(),
        0 <= k,
    ensures
        span(s.skip(off), k, stop) == span(s, off + k, stop),
    decreases s.len() - off - k,
{
    if off + k < s.len() && s[off + k] != stop {
        lemma_span_skip(s, off, k + 1, stop);
    }
}

/// Number of bytes from `off` up to the first byte `stop`, or up to the end.
pub fn scan_until(bytes: &[u8], off: usize, stop: u8) -> (n: usize)
    ensures
        n == span(bytes@, off as int, stop),
        off <= bytes@.len() ==> off + n <= bytes@.len(),
        off + n < bytes@.len() ==> bytes@[off + n] == stop,
        forall|i: int| off <= i < off + n ==> bytes@[i] != stop,
{
    let mut i: usize = off;
    while i < bytes.len() && bytes[i] != stop
        invariant
            off <= i,
            i <= bytes@.len() || i == off,
            span(bytes@, off as int, stop) == (i - off) + span(bytes@, i as int, stop),
            forall|k: int| off <= k < i ==> bytes@[k] != stop,
        decreases bytes@.len() - i,
    {
        i = i + 1;
    }
    i - off
}

/// Whether two byte strings are equal.
pub fn bytes_eq(a: &[u8], b: &[u8]) -> (r: bool)
    ensures
        r == (a@ == b@),
{
    if a.len() != b.len() {
        return false;
    }
    let mut i: usize = 0;
    while i < a.len()
        invariant
            a@.len() == b@.len(),
            i <= a@.len(),
            a@.take(i as int) == b@.take(i as int),
        decreases a@.len() - i,
    {
        if a[i] != b[i] {
            return false;
        }
        assert(a@.take(i + 1) == a@.take(i as int).push(a@[i as int]));
        assert(b@.take(i + 1) == b@.take(i as int).push(b@[i as int]));
        i = i + 1;
    }
    assert(a@ == a@.take(a@.len() as int));
    assert(b@ == b@.take(b@.len() as int));
    true
}

/// The byte is one of the digits `0` to `9`.
pub open spec fn is_digit(b: u8) -> bool {
    0x30 <= b <= 0x39
}

/// Every byte of `s` is a digit.
pub open spec fn all_digits(s: Seq<u8>) -> bool {
    forall|i: int| 0 <= i < s.len() ==> is_digit(#[trigger] s[i])
}

/// The number that the digits `s` spell in base ten.
pub open spec fn digits_value(s: Seq<u8>) -> nat
    decreases s.len(),
{
    if s.len() == 0 {
        0
    } else {
        digits_value(s.drop_last()) * 10 + (s.last() - 0x30) as nat
    }
}

/// `s` without a `+` in front.
pub open spec fn unsigned(s: Seq<u8>) -> Seq<u8> {
    if s.len() > 0 && s[0] == 0x2b {
        s.skip(1)
    } else {
        s
    }
}

/// The number that `s` spells: one digit or more, with or without a `+` in
/// front, and nothing else.
pub open spec fn decimal(s: Seq<u8>) -> Option<nat> {
    let d = unsigned(s);
    if d.len() > 0 && all_digits(d) {
        Some(digits_value(d))
    } else {
        None
    }
}

/// The number that `s` spells, if it spells one that fits 64 bits.
pub open spec fn parse_u64_spec(s: Seq<u8>) -> Option<u64> {
    match decimal(s) {
        Some(v) => if v <= u64::MAX {
            Some(v as u64)
        } else {
            None
        },
        None => None,
    }
}

/// The number that `s` spells, if it spells one that fits a machine word.
pub open spec fn parse_usize_spec(s: Seq<u8>) -> Option<usize> {
    match decimal(s) {
        Some(v) => if v <= usize::MAX {
            Some(v as usize)
        } else {
            None
        },
        None => None,
    }
}

proof fn lemma_digits_prefix(d: Seq<u8>, k: int)
    requires
        0 <= k <= d.len(),
    ensures
        digits_value(d.take(k)) <= digits_value(d),
    decreases d.len() - k,
{
    if k < d.len() {
        assert(d.take(k + 1).drop_last() == d.take(k));
        lemma_digits_prefix(d, k + 1);
    } else {
        assert(d.take(k) == d);
    }
}

/// Reads a decimal number.
pub fn parse_u64(bytes: &[u8]) -> (r: Option<u64>)
    ensures
        r == parse_u64_spec(bytes@),
{
    let len = bytes.len();
    let start: usize = if len > 0 && bytes[0] == 0x2b {
        1
    } else {
        0
    };
    if start == len {
        return None;
    }
    let ghost d = unsigned(bytes@);
    assert(d == bytes@.skip(start as int));
    let mut acc: u64 = 0;
    let mut i: usize = start;
    while i < len
        invariant
            len == bytes@.len(),
            start <= i <= len,
            start < len,
            d == bytes@.skip(start as int),
            d == unsigned(bytes@),
            all_digits(d.take(i - start)),
            acc == digits_value(d.take(i - start)),
        decreases len - i,
    {
        let b = bytes[i];
        if b < 0x30 || b > 0x39 {
            assert(!is_digit(d[i - start]));
            return None;
        }
        let digit = (b - 0x30) as u64;
        proof {
            assert(d.take(i - start + 1).drop_last() == d.take(i - start));
            assert(d.take(i - start + 1).last() == b);
        }
        if acc > (u64::MAX - digit) / 10 {
            proof {
                lemma_digits_prefix(d, i - start + 1);
            }
            return None;
        }
        acc = acc * 10 + digit;
        i = i + 1;
    }
    assert(d.take(len - start) == d);
    Some(acc)
}

/// Reads a decimal number that fits a machine word.
pub fn parse_usize(bytes: &[u8]) -> (r: Option<usize>)
    ensures
        r == parse_usize_spec(bytes@),
{
    match parse_u64(bytes) {
        Some(v) => {
            if v <= usize::MAX as u64 {
                Some(v as usize)
            } else {
                None
            }
        },
        None => None,
    }
}

} // verus!
