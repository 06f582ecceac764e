//! The Fisher-Yates shuffle and the unbiased index sampler that
//! drives it.
//!
//! The index sampler draws whole random bytes - each one a range
//! sample over `[0, 256)`, so it is uniform on `[0, 255]` - assembles
//! them into a little-endian word, masks the word down to the minimal
//! bit width that covers the requested top index, and accepts the
//! candidate only if it does not exceed that index.  Rejection keeps
//! the accepted indices uniform where plain modulo reduction would be
//! biased.
//!
//! Both the sampler and the shuffle are deterministic in the
//! generator state they start from; the spec functions below pin the
//! exact index drawn, the exact permutation produced, and the exact
//! state the generator is left in.
use vstd::arithmetic::power2::lemma2_to64;
use vstd::arithmetic::power2::lemma_pow2_adds;
use vstd::arithmetic::power2::lemma_pow2_strictly_increases;
use vstd::arithmetic::power2::pow2;
use vstd::prelude::*;

use crate::range::RandomRange;
use crate::draw_output;
use crate::next_state;
use crate::state_after;
use crate::RandGenerator;

verus! {

/// Relies on the standard library's `<[T]>::swap`: it exchanges the
/// elements at the two given indices and leaves every other element
/// in place.
pub assume_specification<Elem>[ <[Elem]>::swap ](s: &mut [Elem], a: usize, b: usize)
    requires
        a < old(s)@.len(),
        b < old(s)@.len(),
    ensures
        final(s)@ == old(s)@.update(a as int, old(s)@[b as int]).update(
            b as int,
            old(s)@[a as int],
        ),
;

/// Exchanging two positions of a sequence leaves its multiset of
/// elements unchanged.
pub proof fn lemma_swap_preserves_multiset<T>(s: Seq<T>, i: int, j: int)
    requires
        0 <= i < s.len(),
        0 <= j < s.len(),
    ensures
        s.update(i, s[j]).update(j, s[i]).to_multiset() == s.to_multiset(),
{
    broadcast use vstd::seq_lib::group_to_multiset_ensures;
    broadcast use vstd::multiset::group_multiset_axioms;
    broadcast use vstd::multiset::group_multiset_properties;
    broadcast use vstd::seq_lib::to_multiset_update;

    if i == j {
        assert(s.update(i, s[j]).update(j, s[i]) =~= s);
    } else {
        let s1 = s.update(i, s[j]);
        assert(s1.to_multiset() == s.to_multiset().insert(s[j]).remove(s[i]));
        assert(s1[j] == s[j]);
        assert(s1.update(j, s[i]).to_multiset() == s1.to_multiset().insert(s[i]).remove(s1[j]));
        assert(s.contains(s[i]));
        assert(s.contains(s[j]));
        assert(s.to_multiset().count(s[i]) > 0);
        assert(s.to_multiset().count(s[j]) > 0);
        assert(s.to_multiset().insert(s[j]).remove(s[i]).insert(s[i]).remove(s[j])
            =~= s.to_multiset());
    }
}

/// How many rejected candidates the index sampler tolerates before it
/// falls back to modulo reduction.  Each retry is rejected with
/// probability at most one half, so the fallback is unreachable in
/// practice; it exists so that every call provably terminates.
pub const RETRY_LIMIT: u64 = 64;

/// The random byte the index sampler draws from state `s`: a 16-bit
/// range sample over `[0, 256)`, which is uniform on `[0, 255]`.
pub open spec fn byte_of(s: u64) -> u8 {
    <u16 as RandomRange>::sample_spec(0u16, 256u16, draw_output(s)) as u8
}

/// The little-endian word assembled from `k` consecutive byte draws
/// starting at state `s`.
pub open spec fn assembled_word(s: u64, k: nat) -> u64
    decreases k,
{
    if k == 0 {
        0u64
    } else {
        assembled_word(s, (k - 1) as nat) | ((byte_of(state_after(s, (k - 1) as nat)) as u64) << (
        (8 * (k - 1)) as u64))
    }
}

/// The minimal bit width covering `top`, searched from width `b`
/// upward: the smallest width whose value range still contains `top`.
pub open spec fn bit_width_from(top: u64, b: u64) -> u64
    decreases 64 - b,
{
    if b >= 64 {
        64u64
    } else if (top as nat) < pow2(b as nat) {
        b
    } else {
        bit_width_from(top, (b + 1) as u64)
    }
}

/// The minimal bit width covering `top`.
pub open spec fn bit_width_of(top: u64) -> u64 {
    bit_width_from(top, 0)
}

/// The minimal byte count covering `top`'s bit width.
pub open spec fn byte_count_of(top: u64) -> nat {
    ((bit_width_of(top) + 7) / 8) as nat
}

/// The mask keeping exactly `top`'s bit width.
pub open spec fn mask_of(top: u64) -> u64 {
    if bit_width_of(top) == 64 {
        u64::MAX
    } else {
        ((1u64 << bit_width_of(top)) - 1) as u64
    }
}

/// The bounded-retry rejection recursion: assemble a candidate from
/// `bc` byte draws starting at state `s`, mask it, and accept it if
/// it does not exceed `top`; otherwise retry, or - once the tries are
/// spent - reduce the last candidate modulo `top + 1`.  Returns the
/// index and the generator state left behind.
pub open spec fn index_draw(s: u64, top: u64, bc: nat, mask: u64, tries: nat) -> (u64, u64)
    decreases tries,
{
    let cand = assembled_word(s, bc) & mask;
    let s2 = state_after(s, bc);
    if cand <= top {
        (cand, s2)
    } else if tries <= 1 {
        (cand % ((top + 1) as u64), s2)
    } else {
        index_draw(s2, top, bc, mask, (tries - 1) as nat)
    }
}

/// The unbiased index draw: the pair of index and new generator state
/// that `FisherYates::gen_range` returns and leaves behind when it
/// starts from state `s`.  A zero top index asks for no draw at all.
#[verifier::opaque]
pub open spec fn index_spec(s: u64, top: u64) -> (u64, u64) {
    if top == 0 {
        (0u64, s)
    } else {
        index_draw(s, top, byte_count_of(top), mask_of(top), RETRY_LIMIT as nat)
    }
}

/// The Fisher-Yates recursion from position `i` upward: swap position
/// `i` with the drawn index in `[0, i]`, then continue with the next
/// position.  Returns the permuted sequence and the generator state
/// left behind.
pub open spec fn fisher_yates_from<T>(data: Seq<T>, s: u64, i: nat) -> (Seq<T>, u64)
    decreases data.len() - i,
{
    if i < 1 || i >= data.len() {
        (data, s)
    } else {
        let draw = index_spec(s, i as u64);
        // The drawn index always lies in [0, i]; bounding it keeps
        // the recursion well-founded for arbitrary arguments.
        let j = if draw.0 <= i as u64 {
            draw.0 as int
        } else {
            i as int
        };
        fisher_yates_from(data.update(i as int, data[j]).update(j, data[i as int]), draw.1, i + 1)
    }
}

/// The Fisher-Yates shuffle as a whole: the permutation of `data` and
/// the generator state that shuffling leaves behind, starting from
/// state `s`.
pub open spec fn fisher_yates<T>(data: Seq<T>, s: u64) -> (Seq<T>, u64) {
    fisher_yates_from(data, s, 1)
}

/// An in-place Fisher-Yates shuffle, with the scratch buffer its
/// index sampler assembles random bytes in.
pub struct FisherYates {
    buffer: [u8; 8],
}

impl FisherYates {
    /// The scratch buffer holds only zero bytes.
    pub closed spec fn buffer_zeroed(&self) -> bool {
        forall|k: int| 0 <= k < 8 ==> self.buffer@[k] == 0u8
    }
}

impl Default for FisherYates {
    /// A shuffler with a zeroed scratch buffer.
    fn default() -> (result: Self)
        ensures
            result.buffer_zeroed(),
    {
        let result = FisherYates { buffer: [0u8; 8] };
        proof {
            assert(forall|k: int| 0 <= k < 8 ==> result.buffer@[k] == 0u8);
        }
        result
    }
}

impl FisherYates {
    /// Draws an index uniformly from `[0, top]` by rejection sampling.
    /// The index returned and the state left behind are exactly those
    /// of `index_spec`: random bytes are assembled little-endian,
    /// masked to the minimal bit width covering `top`, and candidates
    /// above `top` are discarded and redrawn.
    pub(crate) fn gen_range(&mut self, state: &mut RandGenerator, top: usize) -> (result: usize)
        requires
            top < usize::MAX,
        ensures
            result <= top,
            result as u64 == index_spec(old(state)@, top as u64).0,
            final(state)@ == index_spec(old(state)@, top as u64).1,
    {
        if top == 0 {
            proof {
                reveal(index_spec);
                assert(index_spec(old(state)@, top as u64) == ((0u64, old(state)@)));
            }
            return 0;
        }
        let top64: u64 = top as u64;
        // The minimal bit width covering `top`: the smallest width
        // whose value range still contains it.
        let mut bit_width: u64 = 0;
        let mut bound: u128 = 1;
        proof {
            lemma2_to64();
        }
        while bit_width < 64 && bound <= top as u128
            invariant
                bit_width <= 64,
                bound == pow2(bit_width as nat),
                top64 == top as u64,
                bit_width_of(top64) == bit_width_from(top64, bit_width),
            decreases 64 - bit_width,
        {
            proof {
                lemma2_to64();
                lemma_pow2_strictly_increases(bit_width as nat, 64);
                lemma_pow2_adds(bit_width as nat, 1);
                assert(bit_width_from(top64, bit_width) == bit_width_from(
                    top64,
                    (bit_width + 1) as u64,
                ));
            }
            bound = bound * 2;
            bit_width = bit_width + 1;
        }
        proof {
            if bit_width < 64 {
                assert((top64 as nat) < pow2(bit_width as nat));
                assert(bit_width_from(top64, bit_width) == bit_width);
            } else {
                assert(bit_width_from(top64, bit_width) == 64u64);
            }
            assert(bit_width == bit_width_of(top64));
        }
        let byte_count: usize = ((bit_width + 7) / 8) as usize;
        let mask: u64 = if bit_width == 64 {
            u64::MAX
        } else {
            proof {
                assert((1u64 << bit_width) >= 1u64) by (bit_vector)
                    requires
                        bit_width < 64u64,
                ;
            }
            (1u64 << bit_width) - 1
        };
        proof {
            assert(byte_count as nat == byte_count_of(top64));
            assert(mask == mask_of(top64));
        }
        let ghost s_begin = state@;
        proof {
            reveal(index_spec);
            assert(index_spec(s_begin, top64) == index_draw(
                s_begin,
                top64,
                byte_count_of(top64),
                mask_of(top64),
                RETRY_LIMIT as nat,
            ));
        }
        let mut tries: u64 = RETRY_LIMIT;
        let mut candidate: u64 = 0;
        while tries > 0
            invariant
                byte_count <= 8,
                byte_count as nat == byte_count_of(top64),
                mask == mask_of(top64),
                top64 == top as u64,
                0 < top64,
                top < usize::MAX,
                s_begin == old(state)@,
                tries > 0 ==> index_spec(s_begin, top64) == index_draw(
                    state@,
                    top64,
                    byte_count as nat,
                    mask,
                    tries as nat,
                ),
                tries == 0 ==> candidate > top64 && index_spec(s_begin, top64).0 == candidate % ((
                top64 + 1) as u64) && index_spec(s_begin, top64).1 == state@,
            decreases tries,
        {
            let ghost s_attempt = state@;
            let mut acc: u64 = 0;
            let mut i: usize = 0;
            while i < byte_count
                invariant
                    i <= byte_count,
                    byte_count <= 8,
                    acc == assembled_word(s_attempt, i as nat),
                    state@ == state_after(s_attempt, i as nat),
                decreases byte_count - i,
            {
                let b16: u16 = state.gen_range(0u16, 256u16);
                let b: u8 = b16 as u8;
                self.buffer[i] = b;
                proof {
                    assert(b == byte_of(state_after(s_attempt, i as nat)));
                    assert(state_after(s_attempt, (i + 1) as nat) == next_state(
                        state_after(s_attempt, i as nat),
                    ));
                    assert(assembled_word(s_attempt, (i + 1) as nat) == assembled_word(
                        s_attempt,
                        i as nat,
                    ) | ((byte_of(state_after(s_attempt, i as nat)) as u64) << ((8 * i) as u64)));
                }
                acc = acc | ((b as u64) << ((8 * i) as u64));
                i = i + 1;
            }
            candidate = acc & mask;
            if candidate <= top64 {
                proof {
                    assert(index_draw(s_attempt, top64, byte_count as nat, mask, tries as nat)
                        == ((candidate, state@)));
                }
                return candidate as usize;
            }
            proof {
                if tries == 1 {
                    assert(index_draw(s_attempt, top64, byte_count as nat, mask, tries as nat)
                        == ((candidate % ((top64 + 1) as u64), state@)));
                } else {
                    assert(index_draw(s_attempt, top64, byte_count as nat, mask, tries as nat)
                        == index_draw(state@, top64, byte_count as nat, mask, (tries - 1) as nat));
                }
            }
            tries = tries - 1;
        }
        // Unreachable in practice: after RETRY_LIMIT rejections, fall
        // back to modulo reduction, trading exact uniformity for a
        // guaranteed answer.
        (candidate % (top64 + 1)) as usize
    }

    /// Shuffles `data` in place: position `i`, from the second element
    /// upward, is swapped with a uniformly drawn position in `[0, i]`.
    /// The resulting permutation and the generator state left behind
    /// are exactly those of the `fisher_yates` recursion; in
    /// particular the elements are permuted - their multiset never
    /// changes - and a sequence of length zero or one is left
    /// untouched, without drawing from the generator.
    pub fn shuffle_with_state<T>(&mut self, state: &mut RandGenerator, data: &mut Vec<T>)
        ensures
            final(data)@ == fisher_yates(old(data)@, old(state)@).0,
            final(state)@ == fisher_yates(old(data)@, old(state)@).1,
            final(data)@.to_multiset() == old(data)@.to_multiset(),
            final(data)@.len() == old(data)@.len(),
            old(data)@.len() <= 1 ==> final(data)@ == old(data)@ && final(state)@ == old(state)@,
    {
        broadcast use vstd::seq_lib::group_to_multiset_ensures;

        let n = data.len();
        let mut i: usize = 1;
        while i < n
            invariant
                1 <= i,
                n == data@.len(),
                n == old(data)@.len(),
                data@.to_multiset() == old(data)@.to_multiset(),
                n <= 1 ==> data@ == old(data)@ && state@ == old(state)@,
                fisher_yates(old(data)@, old(state)@) == fisher_yates_from(
                    data@,
                    state@,
                    i as nat,
                ),
            decreases n - i,
        {
            let ghost pre_data = data@;
            let ghost pre_state = state@;
            let j = self.gen_range(state, i);
            let target = data.as_mut_slice();
            target.swap(i, j);
            proof {
                lemma_swap_preserves_multiset(pre_data, i as int, j as int);
                assert(fisher_yates_from(pre_data, pre_state, i as nat) == fisher_yates_from(
                    pre_data.update(i as int, pre_data[j as int]).update(
                        j as int,
                        pre_data[i as int],
                    ),
                    index_spec(pre_state, i as u64).1,
                    (i + 1) as nat,
                ));
            }
            i = i + 1;
        }
        proof {
            assert(fisher_yates_from(data@, state@, i as nat) == ((data@, state@)));
        }
    }
}

} // verus!
