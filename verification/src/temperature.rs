//! Temperature of the on-chip sensor: a median over raw samples, and the
//! sensor's linear calibration in exact integer arithmetic.

use crate::order::{at_most, lawful_order, lemma_lawful_order, lemma_u16_lawful, lemma_u16_order};
use vstd::prelude::*;

verus! {

/// Number of raw samples taken for one temperature reading.
pub const SAMPLE_COUNT: usize = 10;

/// Time between two raw samples, in milliseconds.
pub const SAMPLE_INTERVAL_MILLIS: u64 = 50;

/// Samples in ascending order.
pub open spec fn ascending<T: Ord>(samples: Seq<T>) -> bool {
    forall|i: int, j: int| 0 <= i < j < samples.len() ==> at_most(samples[i], samples[j])
}

/// Index of the sample that the median filter selects out of `len` sorted
/// samples: the middle one, and the lower of the two middle ones when `len`
/// is even.
pub open spec fn middle_index(len: nat) -> int {
    (len - 1) / 2
}

/// Exchanging two samples changes nothing about which samples there are.
proof fn lemma_swap_keeps_samples<T>(s: Seq<T>, i: int, j: int)
    requires
        0 <= i < s.len(),
        0 <= j < s.len(),
    ensures
        s.update(i, s[j]).update(j, s[i]).to_multiset() == s.to_multiset(),
{
    broadcast use vstd::seq_lib::group_to_multiset_ensures;

    vstd::seq_lib::lemma_update_is_remove_insert(s, i, s[j]);
    vstd::seq_lib::lemma_update_is_remove_insert(s.update(i, s[j]), j, s[i]);
}

/// Numbers can be put in ascending order in one way only: what `median`
/// leaves in the buffer, and so what it returns, depends on nothing but the
/// samples handed in.
pub proof fn lemma_ascending_order_is_unique(a: Seq<u16>, b: Seq<u16>)
    requires
        ascending(a),
        ascending(b),
        a.to_multiset() == b.to_multiset(),
    ensures
        a == b,
{
    let at_most_number = |x: u16, y: u16| x <= y;
    assert forall|i: int, j: int| 0 <= i < j < a.len() implies at_most_number(a[i], a[j]) by {
        lemma_u16_order(a[i], a[j]);
    }
    assert forall|i: int, j: int| 0 <= i < j < b.len() implies at_most_number(b[i], b[j]) by {
        lemma_u16_order(b[i], b[j]);
    }
    vstd::seq_lib::lemma_sorted_unique(a, b, at_most_number);
}

/// Sorts the samples in place and returns the middle one.
pub fn median<T>(buf: &mut [T]) -> (middle: T) where T: Ord + Copy
    requires
        lawful_order::<T>(),
        old(buf)@.len() > 0,
    ensures
        ascending(final(buf)@),
        final(buf)@.to_multiset() == old(buf)@.to_multiset(),
        middle == final(buf)@[middle_index(old(buf)@.len())],
{
    proof {
        lemma_lawful_order::<T>();
    }
    let n: usize = buf.len();
    let ghost samples = buf@;
    let mut i: usize = 0;
    while i < n
        invariant
            i <= n,
            n == buf@.len(),
            lawful_order::<T>(),
            buf@.to_multiset() == samples.to_multiset(),
            forall|a: int, b: int| 0 <= a < b < i ==> at_most(buf@[a], buf@[b]),
        decreases n - i,
    {
        let mut j: usize = i;
        proof {
            lemma_lawful_order::<T>();
        }
        while j > 0 && buf[j - 1] > buf[j]
            invariant
                j <= i < n,
                n == buf@.len(),
                lawful_order::<T>(),
                buf@.to_multiset() == samples.to_multiset(),
                forall|a: int, b: int|
                    0 <= a < b <= i && a != j && b != j ==> at_most(buf@[a], buf@[b]),
                forall|b: int| j < b <= i ==> at_most(buf@[j as int], buf@[b]),
            decreases j,
        {
            let ghost before = buf@;
            let lower: T = buf[j - 1];
            let upper: T = buf[j];
            buf[j - 1] = upper;
            buf[j] = lower;
            proof {
                lemma_lawful_order::<T>();
                assert(buf@ == before.update(j - 1, before[j as int]).update(
                    j as int,
                    before[j - 1],
                ));
                lemma_swap_keeps_samples(before, j - 1, j as int);
                let moved = buf@[j - 1];
                assert forall|b: int| j - 1 < b <= i implies at_most(moved, buf@[b]) by {
                    if b != j {
                        assert(at_most(before[j as int], before[b]));
                    }
                }
            }
            j -= 1;
        }
        proof {
            lemma_lawful_order::<T>();
            assert forall|a: int, b: int| 0 <= a < b < i + 1 implies at_most(buf@[a], buf@[b]) by {
                if b == j && a < j - 1 {
                    assert(at_most(buf@[a], buf@[j - 1]));
                    assert(at_most(buf@[j - 1], buf@[j as int]));
                }
            }
        }
        i += 1;
    }
    buf[(n - 1) / 2]
}

/// Denominator of the calibration, `4096 * 1721`.
pub const CALIBRATION_DENOMINATOR: i64 = 7_049_216;

/// Numerator of ten times the temperature that the calibration assigns to a
/// raw sample. The sensor's data sheet gives
/// `T = 27 - (raw * 3.3 / 4096 - 0.706) / 0.001721`; over the common
/// denominator `4096 * 1721` that is
/// `10 * T = (270 * 4096 * 1721 - (3300 * raw - 706 * 4096) * 10000) / (4096 * 1721)`.
pub open spec fn tenths_numerator(raw: int) -> int {
    270 * 4096 * 1721 - (3300 * raw - 706 * 4096) * 10_000
}

/// The integer nearest to `numerator / denominator`; a value half way
/// between two integers goes to the one farther from zero.
pub open spec fn round_half_away(numerator: int, denominator: int) -> int {
    if numerator >= 0 {
        (2 * numerator + denominator) / (2 * denominator)
    } else {
        -((denominator - 2 * numerator) / (2 * denominator))
    }
}

/// The temperature of a raw sample in tenths of a degree Celsius, held to
/// the range of 16 bits.
pub open spec fn celsius_tenths(raw: u16) -> i16 {
    let tenths = round_half_away(tenths_numerator(raw as int), CALIBRATION_DENOMINATOR as int);
    if tenths < i16::MIN {
        i16::MIN
    } else if tenths > i16::MAX {
        i16::MAX
    } else {
        tenths as i16
    }
}

/// Rounding picks a nearest integer: the result is off by at most one half,
/// and it has the sign of the value rounded.
pub proof fn lemma_round_half_away_is_nearest(numerator: int, denominator: int)
    requires
        denominator > 0,
    ensures
        ({
            let rounded = round_half_away(numerator, denominator);
            &&& -denominator <= 2 * (rounded * denominator - numerator) <= denominator
            &&& numerator >= 0 ==> rounded >= 0 && 2 * (rounded * denominator - numerator)
                > -denominator
            &&& numerator < 0 ==> rounded <= 0 && 2 * (rounded * denominator - numerator)
                < denominator
        }),
{
    let d2 = 2 * denominator;
    let x = if numerator >= 0 {
        2 * numerator + denominator
    } else {
        denominator - 2 * numerator
    };
    let q = x / d2;
    vstd::arithmetic::div_mod::lemma_fundamental_div_mod(x, d2);
    vstd::arithmetic::div_mod::lemma_mod_bound(x, d2);
    vstd::arithmetic::div_mod::lemma_div_pos_is_pos(x, d2);
    assert(d2 * q == 2 * (q * denominator) && (-q) * denominator == -(q * denominator))
        by (nonlinear_arith)
        requires
            d2 == 2 * denominator,
    ;
}

/// Converts a raw sample of the temperature sensor to tenths of a degree
/// Celsius, rounded half away from zero.
pub fn convert_to_celsius(raw_temp: u16) -> (tenths: i16)
    ensures
        tenths == celsius_tenths(raw_temp),
{
    let numerator: i64 = 30_821_048_320 - 33_000_000 * (raw_temp as i64);
    let rounded: i64 = if numerator >= 0 {
        (2 * numerator + CALIBRATION_DENOMINATOR) / (2 * CALIBRATION_DENOMINATOR)
    } else {
        -((CALIBRATION_DENOMINATOR - 2 * numerator) / (2 * CALIBRATION_DENOMINATOR))
    };
    if rounded < -32768 {
        -32768
    } else if rounded > 32767 {
        32767
    } else {
        rounded as i16
    }
}

/// One temperature reading out of `SAMPLE_COUNT` raw samples: the median,
/// which a single outlier cannot move, converted to tenths of a degree.
pub fn temperature(samples: &mut [u16; 10]) -> (tenths: i16)
    ensures
        ascending(final(samples)@),
        final(samples)@.to_multiset() == old(samples)@.to_multiset(),
        tenths == celsius_tenths(final(samples)@[middle_index(SAMPLE_COUNT as nat)]),
{
    proof {
        lemma_u16_lawful();
    }
    let middle: u16 = median(samples);
    convert_to_celsius(middle)
}

} // verus!
