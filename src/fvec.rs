//! Dense feature vector with a reusable sparse support.
use vstd::prelude::*;
use crate::float_bits::{is_zero, is_zero_bits, ZERO_BITS};

verus! {

/// `v` after writing `vals[k]` at position `idx[k]`, for `k` in increasing
/// order (a later pair wins over an earlier one at the same position).
pub open spec fn with_set(v: Seq<u32>, idx: Seq<u32>, vals: Seq<u32>) -> Seq<u32>
    decreases idx.len(),
{
    if idx.len() == 0 || vals.len() == 0 {
        v
    } else {
        with_set(v, idx.drop_last(), vals.drop_last()).update(idx.last() as int, vals.last())
    }
}

/// Whether position `j` is listed in `idx`.
pub open spec fn listed(idx: Seq<u32>, j: int) -> bool {
    exists|k: int| 0 <= k < idx.len() && idx[k] as int == j
}

/// `v` with `0.0` written at each position listed in `idx`.
pub open spec fn with_reset(v: Seq<u32>, idx: Seq<u32>) -> Seq<u32> {
    Seq::new(v.len(), |j: int| if listed(idx, j) { ZERO_BITS } else { v[j] })
}

/// The vector of `n` features that are all missing.
pub open spec fn all_missing(n: nat) -> Seq<u32> {
    Seq::new(n, |j: int| ZERO_BITS)
}

/// Whether every index of `idx` is a position of a vector of length `n`.
pub open spec fn indices_below(idx: Seq<u32>, n: nat) -> bool {
    forall|k: int| 0 <= k < idx.len() ==> (#[trigger] idx[k] as nat) < n
}

/// A feature vector: one binary32 bit pattern per feature, where a value equal
/// to `0.0` marks the feature as missing.
pub struct FVec {
    data: Vec<u32>,
}

impl View for FVec {
    type V = Seq<u32>;

    closed spec fn view(&self) -> Seq<u32> {
        self.data@
    }
}

impl FVec {
    /// A vector of `num_features` features, all missing.
    pub fn new(num_features: usize) -> (r: FVec)
        ensures
            r@ == all_missing(num_features as nat),
    {
        let mut data: Vec<u32> = Vec::with_capacity(num_features);
        let mut i: usize = 0;
        while i < num_features
            invariant
                i <= num_features,
                data@ == all_missing(i as nat),
            decreases num_features - i,
        {
            data.push(ZERO_BITS);
            i = i + 1;
            assert(data@ =~= all_missing(i as nat));
        }
        FVec { data }
    }

    /// The number of features.
    pub fn len(&self) -> (r: usize)
        ensures
            r == self@.len(),
    {
        self.data.len()
    }

    /// Whether feature `index` is missing, that is, equal to `0.0`.
    pub fn is_missing(&self, index: usize) -> (r: bool)
        requires
            index < self@.len(),
        ensures
            r == is_zero(self@[index as int]),
    {
        is_zero_bits(self.data[index])
    }

    /// The bit pattern of feature `index`.
    pub fn fvalue(&self, index: usize) -> (r: u32)
        requires
            index < self@.len(),
        ensures
            r == self@[index as int],
    {
        self.data[index]
    }

    /// Writes `values[k]` at feature `indices[k]`, for each `k` in order.
    pub fn set(&mut self, indices: &[u32], values: &[u32])
        requires
            indices@.len() == values@.len(),
            indices_below(indices@, old(self)@.len()),
        ensures
            final(self)@ == with_set(old(self)@, indices@, values@),
    {
        let length = indices.len();
        let mut i: usize = 0;
        while i < length
            invariant
                i <= length,
                length == indices@.len(),
                indices@.len() == values@.len(),
                indices_below(indices@, old(self)@.len()),
                self@.len() == old(self)@.len(),
                self@ == with_set(old(self)@, indices@.take(i as int), values@.take(i as int)),
            decreases length - i,
        {
            let j = indices[i] as usize;
            assert((indices@[i as int] as nat) < old(self)@.len());
            self.data.set(j, values[i]);
            assert(indices@.take(i + 1).drop_last() =~= indices@.take(i as int));
            assert(values@.take(i + 1).drop_last() =~= values@.take(i as int));
            i = i + 1;
        }
        assert(indices@.take(length as int) =~= indices@);
        assert(values@.take(length as int) =~= values@);
    }

    /// Writes `0.0` at each feature listed in `indices`, marking it missing.
    pub fn reset(&mut self, indices: &[u32])
        requires
            indices_below(indices@, old(self)@.len()),
        ensures
            final(self)@ == with_reset(old(self)@, indices@),
    {
        let length = indices.len();
        let mut i: usize = 0;
        while i < length
            invariant
                i <= length,
                length == indices@.len(),
                indices_below(indices@, old(self)@.len()),
                self@ == with_reset(old(self)@, indices@.take(i as int)),
            decreases length - i,
        {
            let j = indices[i] as usize;
            assert((indices@[i as int] as nat) < old(self)@.len());
            self.data.set(j, ZERO_BITS);
            proof {
                let pre = indices@.take(i as int);
                let t = indices@.take(i + 1);
                assert forall|p: int| 0 <= p < self@.len() implies self@[p] == with_reset(
                    old(self)@,
                    t,
                )[p] by {
                    if p == j {
                        assert(t[i as int] as int == p);
                    } else {
                        if listed(pre, p) {
                            let q = choose|q: int| 0 <= q < pre.len() && pre[q] as int == p;
                            assert(t[q] as int == p);
                        }
                        if listed(t, p) {
                            let q = choose|q: int| 0 <= q < t.len() && t[q] as int == p;
                            assert(pre[q] as int == p);
                        }
                    }
                }
                assert(self@ =~= with_reset(old(self)@, t));
            }
            i = i + 1;
        }
        assert(indices@.take(length as int) =~= indices@);
    }
}

/// Writing leaves the length unchanged and only touches the listed positions.
pub proof fn lemma_with_set_frame(v: Seq<u32>, idx: Seq<u32>, vals: Seq<u32>)
    requires
        indices_below(idx, v.len()),
    ensures
        with_set(v, idx, vals).len() == v.len(),
        forall|j: int|
            0 <= j < v.len() && !listed(idx, j) ==> #[trigger] with_set(v, idx, vals)[j] == v[j],
    decreases idx.len(),
{
    if idx.len() != 0 && vals.len() != 0 {
        let pre = idx.drop_last();
        assert(indices_below(pre, v.len())) by {
            assert forall|k: int| 0 <= k < pre.len() implies (#[trigger] pre[k] as nat) < v.len() by {
                assert(pre[k] == idx[k]);
            }
        }
        assert((idx.last() as nat) < v.len()) by {
            assert((idx[idx.len() - 1] as nat) < v.len());
        }
        lemma_with_set_frame(v, pre, vals.drop_last());
        assert forall|j: int| 0 <= j < v.len() && !listed(idx, j) implies #[trigger] with_set(
            v,
            idx,
            vals,
        )[j] == v[j] by {
            if listed(pre, j) {
                let q = choose|q: int| 0 <= q < pre.len() && pre[q] as int == j;
                assert(idx[q] as int == j);
            }
            assert(idx[idx.len() - 1] == idx.last());
        }
    }
}

/// Resetting the indices just set brings a vector that was all missing back
/// to a freshly made vector of the same length.
pub proof fn lemma_reset_after_set(n: nat, idx: Seq<u32>, vals: Seq<u32>)
    requires
        indices_below(idx, n),
        idx.len() == vals.len(),
    ensures
        with_reset(with_set(all_missing(n), idx, vals), idx) == all_missing(n),
{
    lemma_with_set_frame(all_missing(n), idx, vals);
    assert(with_reset(with_set(all_missing(n), idx, vals), idx) =~= all_missing(n));
}

} // verus!
