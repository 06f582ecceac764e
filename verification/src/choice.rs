//! Random-element selection over a vector: picking one element by
//! reference, one by mutable reference, or several distinct elements,
//! all driven by the unbiased index sampler.
use vstd::prelude::*;

use crate::fy::fisher_yates;
use crate::fy::index_spec;
use crate::fy::FisherYates;
use crate::RandGenerator;

verus! {

/// The identity permutation of positions: `0, 1, ..., n - 1`.
pub open spec fn identity_indices(n: nat) -> Seq<usize> {
    Seq::new(n, |k: int| k as usize)
}

/// The elements a `choose_multiple_with_state` call picked, handed
/// out one reference at a time by `next`.
///
/// The picks are positions of a shuffled copy of `[0, len)` truncated
/// to the requested amount, so they are distinct and in bounds.
pub struct SliceChooseIter<'a, T> {
    source: &'a Vec<T>,
    indices: Vec<usize>,
    pos: usize,
}

impl<'a, T> SliceChooseIter<'a, T> {
    /// The elements of the borrowed source, in order.
    pub closed spec fn source_view(&self) -> Seq<T> {
        self.source@
    }

    /// The picked positions not yet handed out, in the order `next`
    /// will yield them.
    pub closed spec fn planned(&self) -> Seq<usize> {
        self.indices@.skip(self.pos as int)
    }

    /// Every picked position indexes into the source.
    pub closed spec fn wf(&self) -> bool {
        &&& self.pos <= self.indices@.len()
        &&& forall|k: int|
            0 <= k < self.indices@.len() ==> (#[trigger] self.indices@[k]) < self.source@.len()
    }

    /// Hands out a reference to the next picked element, or nothing
    /// once all picks are spent.
    pub fn next(&mut self) -> (result: Option<&'a T>)
        requires
            old(self).wf(),
        ensures
            final(self).wf(),
            final(self).source_view() == old(self).source_view(),
            old(self).planned().len() == 0 ==> result is None && final(self).planned() == old(
                self,
            ).planned(),
            old(self).planned().len() > 0 ==> result is Some && *result.unwrap() == old(
                self,
            ).source_view()[old(self).planned()[0] as int] && final(self).planned() == old(
                self,
            ).planned().drop_first(),
    {
        if self.pos < self.indices.len() {
            let ix = self.indices[self.pos];
            self.pos = self.pos + 1;
            proof {
                assert(self.indices@.skip(self.pos as int) =~= old(self).planned().drop_first());
            }
            Some(&self.source[ix])
        } else {
            None
        }
    }
}

/// A collection whose elements can be shuffled and picked at random.
///
/// `view_elems` is the collection's element sequence; every contract
/// below is stated over it.
pub trait ChooseRandom<T> {
    /// The elements of the collection, in order.
    spec fn view_elems(&self) -> Seq<T>;

    /// Permutes the elements in place, exactly as the `fisher_yates`
    /// recursion over the starting elements and generator state says:
    /// the multiset of elements never changes, and a collection of
    /// length zero or one is left untouched without drawing from the
    /// generator.
    fn shuffle_with_state(&mut self, state: &mut RandGenerator)
        ensures
            final(self).view_elems() == fisher_yates(old(self).view_elems(), old(state)@).0,
            final(state)@ == fisher_yates(old(self).view_elems(), old(state)@).1,
            final(self).view_elems().to_multiset() == old(self).view_elems().to_multiset(),
            final(self).view_elems().len() == old(self).view_elems().len(),
            old(self).view_elems().len() <= 1 ==> final(self).view_elems() == old(
                self,
            ).view_elems() && final(state)@ == old(state)@,
    ;

    /// Picks one element uniformly at random - the one at the index
    /// the unbiased sampler draws for a top index of `len - 1` - or
    /// nothing, without drawing, when the collection is empty.
    fn choose_with_state(&self, state: &mut RandGenerator) -> (result: Option<&T>)
        ensures
            (result is Some) <==> self.view_elems().len() > 0,
            self.view_elems().len() == 0 ==> final(state)@ == old(state)@,
            self.view_elems().len() > 0 ==> result is Some && *result.unwrap()
                == self.view_elems()[index_spec(
                old(state)@,
                (self.view_elems().len() - 1) as u64,
            ).0 as int],
            self.view_elems().len() > 0 ==> final(state)@ == index_spec(
                old(state)@,
                (self.view_elems().len() - 1) as u64,
            ).1,
            result matches Some(x) ==> exists|k: int|
                0 <= k < self.view_elems().len() && *x == self.view_elems()[k],
    ;

    /// Picks one element uniformly at random by mutable reference -
    /// the one at the index the unbiased sampler draws for a top
    /// index of `len - 1` - or nothing, without drawing, when the
    /// collection is empty.
    fn choose_mut_with_state(&mut self, state: &mut RandGenerator) -> (result: Option<&mut T>)
        ensures
            (result is Some) <==> old(self).view_elems().len() > 0,
            old(self).view_elems().len() == 0 ==> final(self).view_elems() == old(
                self,
            ).view_elems() && final(state)@ == old(state)@,
            old(self).view_elems().len() > 0 ==> result is Some && *result.unwrap() == old(
                self,
            ).view_elems()[index_spec(old(state)@, (old(self).view_elems().len() - 1) as u64).0
                as int],
            old(self).view_elems().len() > 0 ==> final(self).view_elems() == old(
                self,
            ).view_elems().update(
                index_spec(old(state)@, (old(self).view_elems().len() - 1) as u64).0 as int,
                *final(result.unwrap()),
            ),
            old(self).view_elems().len() > 0 ==> final(state)@ == index_spec(
                old(state)@,
                (old(self).view_elems().len() - 1) as u64,
            ).1,
    ;

    /// Picks `amount` distinct elements, as if the collection had been
    /// shuffled and cut down to its first `amount` entries: the picked
    /// positions are exactly the identity permutation shuffled by the
    /// `fisher_yates` recursion and truncated.
    fn choose_multiple_with_state<'a>(
        &'a self,
        state: &mut RandGenerator,
        amount: usize,
    ) -> (result: SliceChooseIter<'a, T>)
        requires
            amount <= self.view_elems().len(),
        ensures
            result.wf(),
            result.source_view() == self.view_elems(),
            result.planned() == fisher_yates(
                identity_indices(self.view_elems().len()),
                old(state)@,
            ).0.take(amount as int),
            final(state)@ == fisher_yates(
                identity_indices(self.view_elems().len()),
                old(state)@,
            ).1,
            result.planned().len() == amount,
            result.planned().no_duplicates(),
    ;
}

impl<T> ChooseRandom<T> for Vec<T> {
    open spec fn view_elems(&self) -> Seq<T> {
        self@
    }

    fn shuffle_with_state(&mut self, state: &mut RandGenerator) {
        let mut fy = FisherYates::default();
        fy.shuffle_with_state(state, self);
    }

    fn choose_with_state(&self, state: &mut RandGenerator) -> (result: Option<&T>) {
        let n = self.len();
        if n == 0 {
            return None;
        }
        let mut fy = FisherYates::default();
        let ix = fy.gen_range(state, n - 1);
        let picked = &self[ix];
        proof {
            assert(exists|k: int|
                0 <= k < self.view_elems().len() && *picked == self.view_elems()[k]) by {
                assert((ix as int) < self.view_elems().len());
                assert(*picked == self.view_elems()[ix as int]);
            }
        }
        Some(picked)
    }

    fn choose_mut_with_state(&mut self, state: &mut RandGenerator) -> (result: Option<&mut T>) {
        let n = self.len();
        if n == 0 {
            return None;
        }
        let mut fy = FisherYates::default();
        let ix = fy.gen_range(state, n - 1);
        Some(&mut self[ix])
    }

    fn choose_multiple_with_state<'a>(
        &'a self,
        state: &mut RandGenerator,
        amount: usize,
    ) -> (result: SliceChooseIter<'a, T>) {
        let n = self.len();
        let mut indices: Vec<usize> = Vec::new();
        let mut i: usize = 0;
        while i < n
            invariant
                i <= n,
                indices@.len() == i,
                forall|k: int| 0 <= k < i ==> (#[trigger] indices@[k]) as int == k,
            decreases n - i,
        {
            indices.push(i);
            i = i + 1;
        }
        assert(indices@.no_duplicates());
        assert(indices@ =~= identity_indices(n as nat));
        let ghost iota = indices@;
        let mut fy = FisherYates::default();
        fy.shuffle_with_state(state, &mut indices);
        proof {
            broadcast use vstd::seq_lib::group_to_multiset_ensures;

            iota.lemma_multiset_has_no_duplicates();
            indices@.lemma_multiset_has_no_duplicates_conv();
            assert forall|k: int| 0 <= k < indices@.len() implies (#[trigger] indices@[k]) < n by {
                assert(indices@.contains(indices@[k]));
                assert(iota.to_multiset().count(indices@[k]) > 0);
                assert(iota.contains(indices@[k]));
                let w = choose|w: int| 0 <= w < iota.len() && iota[w] == indices@[k];
                assert(iota[w] as int == w);
            }
        }
        indices.truncate(amount);
        assert(indices@.no_duplicates());
        assert(indices@ =~= fisher_yates(identity_indices(n as nat), old(state)@).0.take(
            amount as int,
        ));
        let result = SliceChooseIter { source: self, indices, pos: 0 };
        proof {
            assert(result.planned() =~= fisher_yates(
                identity_indices(self.view_elems().len()),
                old(state)@,
            ).0.take(amount as int));
        }
        result
    }
}

} // verus!
