//! A small, seedable pseudo-random number generator in the PCG family:
//! a 64-bit linear-congruential state update combined with an
//! xorshift/rotate output permutation, together with uniform range
//! sampling, an unbiased index sampler, a Fisher-Yates shuffle and
//! random-element selection built on top of it.
//!
//! The generator is deterministic: every output is a pure function of
//! the state it was drawn from, so a seed fixes the whole sequence.
use vstd::prelude::*;

mod choice;
mod fy;
mod range;

pub use choice::identity_indices;
pub use choice::ChooseRandom;
pub use choice::SliceChooseIter;
pub use fy::assembled_word;
pub use fy::bit_width_from;
pub use fy::bit_width_of;
pub use fy::byte_count_of;
pub use fy::byte_of;
pub use fy::fisher_yates;
pub use fy::fisher_yates_from;
pub use fy::index_draw;
pub use fy::index_spec;
pub use fy::lemma_swap_preserves_multiset;
pub use fy::mask_of;
pub use fy::FisherYates;
pub use fy::RETRY_LIMIT;
pub use range::lemma_full_span_reachable;
pub use range::lemma_lerp_in_range;
pub use range::lemma_sample_in_range_u32;
pub use range::lerp;
pub use range::RandomRange;

verus! {

/// Multiplier of the linear-congruential state update.
pub const MULTIPLIER: u64 = 6364136223846793005;

/// Increment of the linear-congruential state update.
pub const DEFAULT_INC: u64 = 1442695040888963407;

/// The state update: `state * MULTIPLIER + DEFAULT_INC`, wrapping on
/// 64-bit overflow.
pub open spec fn next_state(s: u64) -> u64 {
    vstd::wrapping::u64_specs::wrapping_add(
        vstd::wrapping::u64_specs::wrapping_mul(s, MULTIPLIER),
        DEFAULT_INC,
    )
}

/// `x` rotated right by `r` bits (`r < 32`).
pub open spec fn rotate_right_32(x: u32, r: u32) -> u32
    recommends
        r < 32,
{
    if r == 0 {
        x
    } else {
        (x >> r) | (x << ((32 - r) as u32))
    }
}

/// The 32-bit word a draw returns when the state it reads is `s`:
/// an xorshifted copy of `s`, rotated by the top five bits of `s`.
pub open spec fn draw_output(s: u64) -> u32 {
    rotate_right_32((((s >> 18u64) ^ s) >> 27u64) as u32, (s >> 59u64) as u32)
}

/// The state a generator holds right after `srand(seed)`: starting
/// from zero, one state update, then `seed` added (wrapping), then a
/// second state update.
pub open spec fn seeded_state(seed: u64) -> u64 {
    next_state(vstd::wrapping::u64_specs::wrapping_add(next_state(0), seed))
}

/// The state after `n` further draws from state `s`.
pub open spec fn state_after(s: u64, n: nat) -> u64
    decreases n,
{
    if n == 0 {
        s
    } else {
        next_state(state_after(s, (n - 1) as nat))
    }
}

/// The `n`-th output (counting from zero) of a generator whose state is `s`.
pub open spec fn nth_output(s: u64, n: nat) -> u32 {
    draw_output(state_after(s, n))
}

/// A pseudo-random number generator with 64 bits of state.
///
/// A freshly constructed generator holds state zero and yields a
/// fixed, repeatable sequence; `srand` re-seeds it.
pub struct RandGenerator {
    state: u64,
}

impl View for RandGenerator {
    type V = u64;

    closed spec fn view(&self) -> u64 {
        self.state
    }
}

impl RandGenerator {
    /// A new, unseeded generator: state zero.
    pub fn new() -> (result: Self)
        ensures
            result@ == 0u64,
    {
        Self { state: 0 }
    }

    /// Re-seeds the generator: the sequence it yields from now on is a
    /// function of `seed` alone.  The seed is folded in after one state
    /// update and followed by a second, so that low-order seed bits do
    /// not show up directly in the first outputs.
    pub fn srand(&mut self, seed: u64)
        ensures
            final(self)@ == seeded_state(seed),
    {
        self.state = 0;
        self.rand();
        let oldstate = self.state;
        self.state = oldstate.wrapping_add(seed);
        self.rand();
    }

    /// Draws the next 32-bit word.  The result is a pure function of
    /// the state the call reads, and the state advances by exactly one
    /// update.
    pub fn rand(&mut self) -> (result: u32)
        ensures
            final(self)@ == next_state(old(self)@),
            result == draw_output(old(self)@),
    {
        let oldstate: u64 = self.state;
        self.state = oldstate.wrapping_mul(MULTIPLIER).wrapping_add(DEFAULT_INC);
        let xorshifted: u32 = (((oldstate >> 18u64) ^ oldstate) >> 27u64) as u32;
        let rot: u32 = (oldstate >> 59u64) as u32;
        proof {
            assert(rot < 32) by (bit_vector)
                requires
                    rot == (oldstate >> 59u64) as u32,
            ;
        }
        if rot == 0 {
            xorshifted
        } else {
            (xorshifted >> rot) | (xorshifted << (32 - rot))
        }
    }
}

/// Determinism: two independently constructed generators seeded with
/// the same value yield the same output at every position, so their
/// `rand` sequences agree at any length.
pub proof fn lemma_determinism(seed1: u64, seed2: u64, n: nat)
    requires
        seed1 == seed2,
    ensures
        nth_output(seeded_state(seed1), n) == nth_output(seeded_state(seed2), n),
{
}

/// Multiplying by the multiplier's modular inverse recovers the
/// factor: the multiplier times 13877824140714322085 is 1 modulo
/// 2^64, because the multiplier is odd.
proof fn lemma_mul_mod_recover(a: int)
    requires
        0 <= a < 0x1_0000_0000_0000_0000,
    ensures
        (((a * 6364136223846793005) % 0x1_0000_0000_0000_0000) * 13877824140714322085)
            % 0x1_0000_0000_0000_0000 == a,
{
    let m = 6364136223846793005int;
    let v = 13877824140714322085int;
    let n = 0x1_0000_0000_0000_0000int;
    let q = 4787856489426250814int;
    vstd::arithmetic::div_mod::lemma_mul_mod_noop_left(a * m, v, n);
    assert(m * v == 1 + q * n);
    vstd::arithmetic::mul::lemma_mul_is_associative(a, m, v);
    vstd::arithmetic::mul::lemma_mul_is_distributive_add(a, 1, q * n);
    vstd::arithmetic::mul::lemma_mul_is_associative(a, q, n);
    vstd::arithmetic::mul::lemma_mul_is_commutative(a * q, n);
    assert((a * m) * v == n * (a * q) + a);
    vstd::arithmetic::div_mod::lemma_mod_multiples_vanish(a * q, a, n);
    vstd::arithmetic::div_mod::lemma_small_mod(a as nat, 0x1_0000_0000_0000_0000nat);
}

/// The state update is injective: it multiplies the state by an odd
/// constant, which is invertible modulo 2^64, and adds a constant.
pub proof fn lemma_next_state_injective(a1: u64, a2: u64)
    requires
        next_state(a1) == next_state(a2),
    ensures
        a1 == a2,
{
    let m1 = vstd::wrapping::u64_specs::wrapping_mul(a1, MULTIPLIER);
    let m2 = vstd::wrapping::u64_specs::wrapping_mul(a2, MULTIPLIER);
    assert(m1 == m2);
    lemma_mul_mod_recover(a1 as int);
    lemma_mul_mod_recover(a2 as int);
}

/// Seed sensitivity, the deterministic half: distinct seeds always
/// leave freshly seeded generators in distinct states, because every
/// step of the seeding procedure is a bijection of the 64-bit state
/// space.  That the output sequences then diverge within a few draws
/// is a statistical property, observed by test rather than proved.
pub proof fn lemma_seed_sensitivity(seed1: u64, seed2: u64)
    requires
        seed1 != seed2,
    ensures
        seeded_state(seed1) != seeded_state(seed2),
{
    let a1 = vstd::wrapping::u64_specs::wrapping_add(next_state(0), seed1);
    let a2 = vstd::wrapping::u64_specs::wrapping_add(next_state(0), seed2);
    assert(a1 != a2);
    if seeded_state(seed1) == seeded_state(seed2) {
        lemma_next_state_injective(a1, a2);
    }
}

} // verus!
