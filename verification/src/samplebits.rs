use vstd::prelude::*;

verus! {

use vstd::std_specs::bits::{
    u32_leading_ones, u32_leading_zeros, u32_trailing_ones, u32_trailing_zeros,
};

/// Count of leading bits of `s`, beyond the sign position, that merely repeat
/// the sign bit and so carry no information: for a non-negative sample one
/// less than its leading-zero count, for a negative sample one less than its
/// leading-one count.
pub open spec fn leading_redundant(s: i32) -> u32 {
    if s < 0 {
        (u32_leading_ones(s as u32) - 1) as u32
    } else {
        (u32_leading_zeros(s as u32) - 1) as u32
    }
}

/// Number of low bits of `s` that are all zero.
pub open spec fn trailing_zero_run(s: i32) -> u32 {
    u32_trailing_zeros(s as u32)
}

/// Number of low bits of `s` that are all one.
pub open spec fn trailing_one_run(s: i32) -> u32 {
    u32_trailing_ones(s as u32)
}

/// A decoder that stores a width-`bits_per_sample` value left-justified in 32
/// bits is brought back to a right-justified value by an arithmetic shift.
pub open spec fn align_down(raw: i32, bits_per_sample: u32) -> i32
    recommends
        1 <= bits_per_sample <= 32,
{
    raw >> (32 - bits_per_sample) as u32
}

/// The sign bit always occupies one position, so at most 31 further bits can
/// repeat it.
pub proof fn lemma_leading_redundant_bound(s: i32)
    ensures
        s < 0 ==> 1 <= u32_leading_ones(s as u32) <= 32,
        s >= 0 ==> 1 <= u32_leading_zeros(s as u32) <= 32,
        leading_redundant(s) <= 31,
{
    broadcast use vstd::std_specs::bits::group_bits_axioms;

    let u = s as u32;
    if s < 0 {
        let n = u32_leading_ones(u);
        assert(0 <= n <= 32);
        if n == 0 {
            assert((u >> 31u32) & 1u32 == 0u32);
            assert(s < 0 ==> ((s as u32) >> 31u32) & 1u32 == 1u32) by (bit_vector);
        }
    } else {
        let n = u32_leading_zeros(u);
        assert(0 <= n <= 32);
        if n == 0 {
            assert((u >> 31u32) & 1u32 != 0u32);
            assert(s >= 0 ==> ((s as u32) >> 31u32) & 1u32 == 0u32) by (bit_vector);
        }
    }
}

/// If the highest set bit of `u` sits at position `b`, exactly the `31 - b`
/// bits above it are zero.
pub proof fn lemma_leading_zeros_at(u: u32, b: u32)
    requires
        b <= 31,
        u >> b == 1u32,
    ensures
        u32_leading_zeros(u) == 31 - b,
{
    broadcast use vstd::std_specs::bits::group_bits_axioms;

    assert(u >> b == 1u32 ==> u != 0) by (bit_vector);
    let n = u32_leading_zeros(u);
    assert(0 <= n <= 32);
    assert(n < 32);
    let hi: u32 = ((31 - n) as u32);
    let above: u32 = ((32 - n) as u32);
    assert((u >> hi) & 1u32 != 0u32);
    assert(u >> above == 0u32);
    assert(hi == b) by (bit_vector)
        requires
            b <= 31,
            hi <= 31,
            above == hi + 1,
            u >> b == 1u32,
            (u >> hi) & 1u32 != 0u32,
            u >> above == 0u32,
    ;
}

/// A value with no bit set at position `width` or above has at least
/// `32 - width` leading zeros.
pub proof fn lemma_low_value_leading_zeros(v: u32, width: u32)
    requires
        width <= 31,
        v >> width == 0u32,
    ensures
        u32_leading_zeros(v) >= 32 - width,
{
    broadcast use vstd::std_specs::bits::group_bits_axioms;

    let n = u32_leading_zeros(v);
    assert(0 <= n <= 32);
    if n < 32 {
        let hi: u32 = ((31 - n) as u32);
        assert((v >> hi) & 1u32 != 0u32);
        assert(!(v >> width == 0u32 && hi >= width && hi <= 31 && (v >> hi) & 1u32 != 0u32))
            by (bit_vector);
        assert(hi < width);
    }
}

/// The leading-one count of `u` is the leading-zero count of its complement.
pub proof fn lemma_leading_ones_at(u: u32, b: u32)
    requires
        b <= 31,
        (!u) >> b == 1u32,
    ensures
        u32_leading_ones(u) == 31 - b,
{
    lemma_leading_zeros_at(!u, b);
}

/// Redundant leading bits of a sample, as stored by the analyzer.
pub fn sample_leading_redundant(s: i32) -> (r: u32)
    ensures
        r == leading_redundant(s),
        r <= 31,
{
    proof {
        lemma_leading_redundant_bound(s);
    }
    if s < 0 {
        (s as u32).leading_ones() - 1
    } else {
        (s as u32).leading_zeros() - 1
    }
}

/// Length of the all-zero run at the low end of a sample.
pub fn sample_trailing_zero_run(s: i32) -> (r: u32)
    ensures
        r == trailing_zero_run(s),
        r <= 32,
{
    proof {
        broadcast use vstd::std_specs::bits::group_bits_axioms;

    }
    (s as u32).trailing_zeros()
}

/// Length of the all-one run at the low end of a sample.
pub fn sample_trailing_one_run(s: i32) -> (r: u32)
    ensures
        r == trailing_one_run(s),
        r <= 32,
{
    proof {
        broadcast use vstd::std_specs::bits::group_bits_axioms;

    }
    (s as u32).trailing_ones()
}

/// Right-justify a sample that a decoder delivered left-justified.
pub fn align_sample(raw: i32, bits_per_sample: u32) -> (r: i32)
    requires
        1 <= bits_per_sample <= 32,
    ensures
        r == align_down(raw, bits_per_sample),
{
    raw >> (32 - bits_per_sample)
}

} // verus!
