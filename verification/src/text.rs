//! Byte-level text primitives: finding a delimiter and reading an unsigned
//! decimal numeral. Everything here works on raw bytes, so it applies equally
//! to a sanitised serial buffer and to the UTF-8 bytes of a string.

use vstd::prelude::*;

verus! {

/// Index of the first occurrence of `byte` in `s`, if it occurs at all.
pub open spec fn find_byte(s: Seq<u8>, byte: u8) -> Option<int>
    decreases s.len(),
{
    if s.len() == 0 {
        None
    } else if s[0] == byte {
        Some(0int)
    } else {
        match find_byte(s.skip(1), byte) {
            Some(i) => Some(i + 1),
            None => None,
        }
    }
}

/// `find_byte` yields the least index that holds `byte`, and nothing exactly
/// when `byte` does not occur.
pub proof fn lemma_find_byte(s: Seq<u8>, byte: u8)
    ensures
        match find_byte(s, byte) {
            Some(i) => {
                &&& 0 <= i < s.len()
                &&& s[i] == byte
                &&& forall|j: int| 0 <= j < i ==> s[j] != byte
            },
            None => forall|j: int| 0 <= j < s.len() ==> s[j] != byte,
        },
    decreases s.len(),
{
    if s.len() > 0 && s[0] != byte {
        let rest = s.skip(1);
        lemma_find_byte(rest, byte);
        match find_byte(rest, byte) {
            Some(i) => {
                assert forall|j: int| 0 <= j < i + 1 implies s[j] != byte by {
                    if j > 0 {
                        assert(s[j] == rest[j - 1]);
                    }
                }
            },
            None => {
                assert forall|j: int| 0 <= j < s.len() implies s[j] != byte by {
                    if j > 0 {
                        assert(s[j] == rest[j - 1]);
                    }
                }
            },
        }
    }
}

/// The least index that holds `byte` is the one `find_byte` yields.
pub proof fn lemma_find_byte_first(s: Seq<u8>, byte: u8, at: int)
    requires
        0 <= at < s.len(),
        s[at] == byte,
        forall|j: int| 0 <= j < at ==> s[j] != byte,
    ensures
        find_byte(s, byte) == Some(at),
{
    lemma_find_byte(s, byte);
}

/// A sequence without `byte` yields nothing.
pub proof fn lemma_find_byte_absent(s: Seq<u8>, byte: u8)
    requires
        forall|j: int| 0 <= j < s.len() ==> s[j] != byte,
    ensures
        find_byte(s, byte) is None,
{
    lemma_find_byte(s, byte);
}

/// Finds the first occurrence of `byte` in `bytes[from..to]`. The index
/// returned is relative to the start of `bytes`.
pub fn find_in(bytes: &[u8], from: usize, to: usize, byte: u8) -> (found: Option<usize>)
    requires
        from <= to <= bytes.len(),
    ensures
        match find_byte(bytes@.subrange(from as int, to as int), byte) {
            Some(k) => found == Some((from + k) as usize),
            None => found is None,
        },
        found matches Some(i) ==> from <= i < to && bytes@[i as int] == byte,
{
    let ghost window = bytes@.subrange(from as int, to as int);
    let mut i: usize = from;
    while i < to
        invariant
            from <= i <= to <= bytes.len(),
            window == bytes@.subrange(from as int, to as int),
            forall|j: int| 0 <= j < i - from ==> window[j] != byte,
        decreases to - i,
    {
        if bytes[i] == byte {
            proof {
                lemma_find_byte_first(window, byte, i - from);
            }
            return Some(i);
        }
        i += 1;
    }
    proof {
        lemma_find_byte_absent(window, byte);
    }
    None
}

/// An ASCII decimal digit.
pub open spec fn is_digit(b: u8) -> bool {
    0x30 <= b <= 0x39
}

/// What a digit is worth; bytes that are no digits count as zero.
pub open spec fn digit_value(b: u8) -> nat {
    if is_digit(b) {
        (b - 0x30) as nat
    } else {
        0
    }
}

/// A numeral is a non-empty run of decimal digits: no sign, no blanks.
pub open spec fn is_numeral(s: Seq<u8>) -> bool {
    &&& s.len() > 0
    &&& forall|i: int| 0 <= i < s.len() ==> is_digit(#[trigger] s[i])
}

/// The number that a run of digits denotes, most significant digit first.
pub open spec fn decimal_value(s: Seq<u8>) -> nat
    decreases s.len(),
{
    if s.len() == 0 {
        0
    } else {
        decimal_value(s.drop_last()) * 10 + digit_value(s.last())
    }
}

/// Reading of `s` as an unsigned decimal number of at most `max`: the value
/// of a numeral that fits, and nothing for anything else.
pub open spec fn parse_decimal(s: Seq<u8>, max: nat) -> Option<nat> {
    if is_numeral(s) && decimal_value(s) <= max {
        Some(decimal_value(s))
    } else {
        None
    }
}

/// Ten to the power of `exponent`.
pub open spec fn pow10(exponent: nat) -> nat
    decreases exponent,
{
    if exponent == 0 {
        1
    } else {
        10 * pow10((exponent - 1) as nat)
    }
}

/// Digits written after a run shift the run's value to the left.
pub proof fn lemma_decimal_concat(a: Seq<u8>, b: Seq<u8>)
    ensures
        decimal_value(a + b) == decimal_value(a) * pow10(b.len()) + decimal_value(b),
    decreases b.len(),
{
    if b.len() == 0 {
        assert(decimal_value(a) * 1 == decimal_value(a));
    } else {
        let shorter = b.drop_last();
        lemma_decimal_concat(a, shorter);
        assert((a + b).drop_last() =~= a + shorter);
        let high = decimal_value(a);
        let low = decimal_value(shorter);
        let scale = pow10(shorter.len());
        let digit = digit_value(b.last());
        assert((high * scale + low) * 10 + digit == high * (10 * scale) + (low * 10 + digit))
            by (nonlinear_arith);
    }
}

/// A prefix never denotes more than the whole run.
pub proof fn lemma_decimal_prefix(s: Seq<u8>, k: int)
    requires
        0 <= k <= s.len(),
    ensures
        decimal_value(s.take(k)) <= decimal_value(s),
    decreases s.len() - k,
{
    if k == s.len() {
        assert(s.take(k) =~= s);
    } else {
        lemma_decimal_prefix(s, k + 1);
        assert(s.take(k + 1).drop_last() =~= s.take(k));
    }
}

/// Reads `bytes[from..to]` as an unsigned decimal number no larger than `max`.
pub fn parse_bounded(bytes: &[u8], from: usize, to: usize, max: u64) -> (value: Option<u64>)
    requires
        from <= to <= bytes.len(),
    ensures
        match parse_decimal(bytes@.subrange(from as int, to as int), max as nat) {
            Some(v) => value == Some(v as u64),
            None => value is None,
        },
{
    let ghost field = bytes@.subrange(from as int, to as int);
    if from == to {
        return None;
    }
    let mut acc: u64 = 0;
    let mut i: usize = from;
    while i < to
        invariant
            from <= i <= to <= bytes.len(),
            field == bytes@.subrange(from as int, to as int),
            forall|k: int| 0 <= k < i - from ==> is_digit(#[trigger] field[k]),
            acc == decimal_value(field.take(i - from)),
            acc <= max,
        decreases to - i,
    {
        let b: u8 = bytes[i];
        assert(field[i - from] == b);
        if b < 0x30 || b > 0x39 {
            return None;
        }
        let d: u64 = (b - 0x30) as u64;
        proof {
            let next = field.take(i - from + 1);
            assert(next.drop_last() =~= field.take(i - from));
            lemma_decimal_prefix(field, i - from + 1);
        }
        if d > max || acc > (max - d) / 10 {
            return None;
        }
        acc = acc * 10 + d;
        i += 1;
    }
    proof {
        assert(field.take(to - from) =~= field);
    }
    Some(acc)
}

} // verus!
