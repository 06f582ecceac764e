//! Uniform range sampling: one draw of the generator is mapped into a
//! caller-supplied bound pair `[low, high)` by linear interpolation.
//!
//! A draw `r` is treated as the fraction `r / 2^32` of the way from
//! `low` to `high`; the sampled value is `low + (high - low) * r / 2^32`,
//! rounded toward `low`.  For `low < high` the result always lies in
//! `[low, high)`; for `low == high` it is `low`.
use vstd::arithmetic::div_mod::lemma_multiply_divide_lt;
use vstd::prelude::*;

use crate::draw_output;
use crate::next_state;
use crate::RandGenerator;

verus! {

/// The interpolation a sampling call performs, over unbounded
/// integers: `low` plus the fraction `r / 2^32` of the span,
/// rounded toward `low`.
pub open spec fn lerp(low: int, high: int, r: u32) -> int {
    low + ((high - low) * r) / 0x1_0000_0000
}

/// Range containment: for `low <= high` the interpolated value lies in
/// `[low, high)`, except that an empty span yields `low` itself.
pub proof fn lemma_lerp_in_range(low: int, high: int, r: u32)
    requires
        low <= high,
    ensures
        low <= lerp(low, high, r),
        low < high ==> lerp(low, high, r) < high,
        low == high ==> lerp(low, high, r) == low,
{
    let span = high - low;
    assert(span * r >= 0) by (nonlinear_arith)
        requires
            span >= 0,
    ;
    assert((span * r) / 0x1_0000_0000 >= 0);
    if low == high {
        assert(span * r == 0) by (nonlinear_arith)
            requires
                span == 0,
        ;
    }
    if low < high {
        assert(span * r < span * 0x1_0000_0000) by (nonlinear_arith)
            requires
                span >= 1,
                r < 0x1_0000_0000,
        ;
        lemma_multiply_divide_lt(span * r, span, 0x1_0000_0000);
    }
}

/// Scales a span by the fraction `r / 2^32`, rounding down.  This is
/// the shared arithmetic core of every sampling implementation.
fn scale(span: u64, r: u32) -> (offset: u64)
    ensures
        offset == ((span as int) * (r as int)) / 0x1_0000_0000,
        span == 0 ==> offset == 0,
        span > 0 ==> offset < span,
{
    proof {
        assert((span as int) * (r as int) <= 0xFFFF_FFFF_FFFF_FFFF * 0xFFFF_FFFF) by (nonlinear_arith)
            requires
                span <= 0xFFFF_FFFF_FFFF_FFFF,
                r <= 0xFFFF_FFFF,
        ;
    }
    let wide: u128 = (span as u128) * (r as u128);
    let offset: u128 = wide / 0x1_0000_0000;
    proof {
        if span > 0 {
            assert((span as int) * (r as int) < (span as int) * 0x1_0000_0000) by (nonlinear_arith)
                requires
                    span >= 1,
                    r < 0x1_0000_0000,
            ;
            lemma_multiply_divide_lt((span as int) * (r as int), span as int, 0x1_0000_0000);
        }
    }
    offset as u64
}

/// A numeric type whose values can be sampled uniformly from a bound
/// pair by a generator draw.
///
/// `sample_spec` pins down the exact value an implementation returns
/// for a given bound pair and draw, so sampling is deterministic in
/// the generator state.
pub trait RandomRange: Sized {
    /// The bound pair `(low, high)` is valid: `low` does not exceed `high`.
    spec fn valid_bounds(low: Self, high: Self) -> bool;

    /// The value sampled from `(low, high)` when the generator draw is `r`.
    spec fn sample_spec(low: Self, high: Self, r: u32) -> Self;

    /// Samples a value in `[low, high)` (or exactly `low` when
    /// `low == high`) using one draw of `state`.
    fn gen_range_with_state(state: &mut RandGenerator, low: Self, high: Self) -> (result: Self)
        requires
            Self::valid_bounds(low, high),
        ensures
            final(state)@ == next_state(old(state)@),
            result == Self::sample_spec(low, high, draw_output(old(state)@)),
    ;
}

impl RandGenerator {
    /// Samples a value of any supported numeric type in `[low, high)`
    /// (or exactly `low` when `low == high`) using one draw.
    pub fn gen_range<T: RandomRange>(&mut self, low: T, high: T) -> (result: T)
        requires
            T::valid_bounds(low, high),
        ensures
            final(self)@ == next_state(old(self)@),
            result == T::sample_spec(low, high, draw_output(old(self)@)),
    {
        T::gen_range_with_state(self, low, high)
    }
}

impl RandomRange for u8 {
    open spec fn valid_bounds(low: u8, high: u8) -> bool {
        low <= high
    }

    open spec fn sample_spec(low: u8, high: u8, r: u32) -> u8 {
        lerp(low as int, high as int, r) as u8
    }

    fn gen_range_with_state(state: &mut RandGenerator, low: u8, high: u8) -> (result: u8) {
        let r = state.rand();
        let offset = scale((high - low) as u64, r);
        proof {
            lemma_lerp_in_range(low as int, high as int, r);
        }
        low + (offset as u8)
    }
}

impl RandomRange for u16 {
    open spec fn valid_bounds(low: u16, high: u16) -> bool {
        low <= high
    }

    open spec fn sample_spec(low: u16, high: u16, r: u32) -> u16 {
        lerp(low as int, high as int, r) as u16
    }

    fn gen_range_with_state(state: &mut RandGenerator, low: u16, high: u16) -> (result: u16) {
        let r = state.rand();
        let offset = scale((high - low) as u64, r);
        proof {
            lemma_lerp_in_range(low as int, high as int, r);
        }
        low + (offset as u16)
    }
}

impl RandomRange for u32 {
    open spec fn valid_bounds(low: u32, high: u32) -> bool {
        low <= high
    }

    open spec fn sample_spec(low: u32, high: u32, r: u32) -> u32 {
        lerp(low as int, high as int, r) as u32
    }

    fn gen_range_with_state(state: &mut RandGenerator, low: u32, high: u32) -> (result: u32) {
        let r = state.rand();
        let offset = scale((high - low) as u64, r);
        proof {
            lemma_lerp_in_range(low as int, high as int, r);
        }
        low + (offset as u32)
    }
}

impl RandomRange for u64 {
    open spec fn valid_bounds(low: u64, high: u64) -> bool {
        low <= high
    }

    open spec fn sample_spec(low: u64, high: u64, r: u32) -> u64 {
        lerp(low as int, high as int, r) as u64
    }

    fn gen_range_with_state(state: &mut RandGenerator, low: u64, high: u64) -> (result: u64) {
        let r = state.rand();
        let offset = scale(high - low, r);
        proof {
            lemma_lerp_in_range(low as int, high as int, r);
        }
        low + offset
    }
}

impl RandomRange for usize {
    open spec fn valid_bounds(low: usize, high: usize) -> bool {
        low <= high
    }

    open spec fn sample_spec(low: usize, high: usize, r: u32) -> usize {
        lerp(low as int, high as int, r) as usize
    }

    fn gen_range_with_state(state: &mut RandGenerator, low: usize, high: usize) -> (result: usize) {
        let r = state.rand();
        let offset = scale((high - low) as u64, r);
        proof {
            lemma_lerp_in_range(low as int, high as int, r);
        }
        low + (offset as usize)
    }
}

impl RandomRange for i8 {
    open spec fn valid_bounds(low: i8, high: i8) -> bool {
        low <= high
    }

    open spec fn sample_spec(low: i8, high: i8, r: u32) -> i8 {
        lerp(low as int, high as int, r) as i8
    }

    fn gen_range_with_state(state: &mut RandGenerator, low: i8, high: i8) -> (result: i8) {
        let r = state.rand();
        let span = ((high as i16) - (low as i16)) as u64;
        let offset = scale(span, r);
        proof {
            lemma_lerp_in_range(low as int, high as int, r);
        }
        ((low as i16) + (offset as i16)) as i8
    }
}

impl RandomRange for i16 {
    open spec fn valid_bounds(low: i16, high: i16) -> bool {
        low <= high
    }

    open spec fn sample_spec(low: i16, high: i16, r: u32) -> i16 {
        lerp(low as int, high as int, r) as i16
    }

    fn gen_range_with_state(state: &mut RandGenerator, low: i16, high: i16) -> (result: i16) {
        let r = state.rand();
        let span = ((high as i32) - (low as i32)) as u64;
        let offset = scale(span, r);
        proof {
            lemma_lerp_in_range(low as int, high as int, r);
        }
        ((low as i32) + (offset as i32)) as i16
    }
}

impl RandomRange for i32 {
    open spec fn valid_bounds(low: i32, high: i32) -> bool {
        low <= high
    }

    open spec fn sample_spec(low: i32, high: i32, r: u32) -> i32 {
        lerp(low as int, high as int, r) as i32
    }

    fn gen_range_with_state(state: &mut RandGenerator, low: i32, high: i32) -> (result: i32) {
        let r = state.rand();
        let span = ((high as i64) - (low as i64)) as u64;
        let offset = scale(span, r);
        proof {
            lemma_lerp_in_range(low as int, high as int, r);
        }
        ((low as i64) + (offset as i64)) as i32
    }
}

impl RandomRange for i64 {
    open spec fn valid_bounds(low: i64, high: i64) -> bool {
        low <= high
    }

    open spec fn sample_spec(low: i64, high: i64, r: u32) -> i64 {
        lerp(low as int, high as int, r) as i64
    }

    fn gen_range_with_state(state: &mut RandGenerator, low: i64, high: i64) -> (result: i64) {
        let r = state.rand();
        let span = ((high as i128) - (low as i128)) as u64;
        let offset = scale(span, r);
        proof {
            lemma_lerp_in_range(low as int, high as int, r);
        }
        ((low as i128) + (offset as i128)) as i64
    }
}

impl RandomRange for isize {
    open spec fn valid_bounds(low: isize, high: isize) -> bool {
        low <= high
    }

    open spec fn sample_spec(low: isize, high: isize, r: u32) -> isize {
        lerp(low as int, high as int, r) as isize
    }

    fn gen_range_with_state(state: &mut RandGenerator, low: isize, high: isize) -> (result: isize) {
        let r = state.rand();
        let span = ((high as i128) - (low as i128)) as u64;
        let offset = scale(span, r);
        proof {
            lemma_lerp_in_range(low as int, high as int, r);
        }
        ((low as i128) + (offset as i128)) as isize
    }
}

/// Range containment at the sampled type: every 32-bit draw maps a
/// valid bound pair into `[low, high)`, or onto `low` itself when the
/// bounds coincide.
pub proof fn lemma_sample_in_range_u32(low: u32, high: u32, r: u32)
    requires
        low <= high,
    ensures
        low <= <u32 as RandomRange>::sample_spec(low, high, r),
        low < high ==> <u32 as RandomRange>::sample_spec(low, high, r) < high,
        low == high ==> <u32 as RandomRange>::sample_spec(low, high, r) == low,
{
    lemma_lerp_in_range(low as int, high as int, r);
}

/// Unbounded endpoints are meaningful: sampling over a type's whole
/// representable range can reach both ends of it.  Witnessed here for
/// 16-bit signed values: the least draw lands on the minimum, the
/// greatest draw one below the maximum.
pub proof fn lemma_full_span_reachable()
    ensures
        lerp(i16::MIN as int, i16::MAX as int, 0u32) == i16::MIN as int,
        lerp(i16::MIN as int, i16::MAX as int, 0xFFFF_FFFFu32) == i16::MAX as int - 1,
{
    assert(65535int * 0 == 0) by (nonlinear_arith);
    assert(65535int * 0xFFFF_FFFF == 281470681677825) by (nonlinear_arith);
    assert(281470681677825int / 0x1_0000_0000 == 65534);
}

} // verus!
