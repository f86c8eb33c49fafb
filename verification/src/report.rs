use vstd::prelude::*;
use vstd::arithmetic::div_mod::lemma_div_is_ordered_by_denominator;
use vstd::arithmetic::div_mod::lemma_div_multiples_vanish;

verus! {

/// Overhead of an encoding over the theoretical floor, in hundredths of a
/// percent: 0 means exactly at the floor, 10000 means twice the floor,
/// negative values would mean beating it.
pub open spec fn overhead_centi_spec(total: int, min: int) -> int {
    10000 * total / min - 10000
}

/// Average encoded size per record in hundredths of a byte.
pub open spec fn average_centi_spec(total: int, n: int) -> int {
    100 * total / n
}

/// Computes a format's overhead column: how much larger its total encoded
/// size is than the theoretical floor, in hundredths of a percent.
pub fn overhead_centipercent(total: u128, min: u128) -> (r: i128)
    requires
        1 <= min,
        10000 * total <= i128::MAX,
    ensures
        r == overhead_centi_spec(total as int, min as int),
{
    let scaled: u128 = 10000u128 * total;
    let q: u128 = scaled / min;
    proof {
        assert(scaled / (min as u128) <= scaled / 1) by {
            lemma_div_is_ordered_by_denominator(scaled as int, 1, min as int);
        }
    }
    (q as i128) - 10000
}

/// Computes a format's average-size column in hundredths of a byte per
/// record.
pub fn average_size_centibytes(total: u128, n: usize) -> (r: u128)
    requires
        1 <= n,
        100 * total <= u128::MAX,
    ensures
        r == average_centi_spec(total as int, n as int),
{
    let scaled: u128 = 100u128 * total;
    scaled / (n as u128)
}

/// The overhead of the theoretical-minimum row itself is always exactly
/// zero, whatever the floor is: the row is normalized against itself.
pub proof fn lemma_minimum_overhead_zero(min: int)
    requires
        1 <= min,
    ensures
        overhead_centi_spec(min, min) == 0,
{
    lemma_div_multiples_vanish(10000, min);
    assert(min * 10000 == 10000 * min) by (nonlinear_arith);
}

/// The overhead column of the summary row that reports the theoretical
/// minimum: pinned at exactly zero.
pub fn minimum_row_overhead(min: u128) -> (r: i128)
    requires
        1 <= min,
        10000 * min <= i128::MAX,
    ensures
        r == 0,
        r == overhead_centi_spec(min as int, min as int),
{
    let r = overhead_centipercent(min, min);
    proof {
        lemma_minimum_overhead_zero(min as int);
    }
    r
}

} // verus!
