//! Minimum and maximum calculations on vectors, with first-occurrence
//! tie-breaking.

use vstd::prelude::*;

verus! {

/// The elements of a sequence of `i64`, as mathematical integers.
pub open spec fn int_seq_i64(s: Seq<i64>) -> Seq<int> {
    s.map(|i: int, x: i64| x as int)
}

/// The elements of a sequence of `i32`, as mathematical integers.
pub open spec fn int_seq_i32(s: Seq<i32>) -> Seq<int> {
    s.map(|i: int, x: i32| x as int)
}

/// The elements of a sequence of `u32`, as mathematical integers.
pub open spec fn int_seq_u32(s: Seq<u32>) -> Seq<int> {
    s.map(|i: int, x: u32| x as int)
}

/// `r` is the index of the first maximum of `s`: no element exceeds `s[r]`,
/// and every element before `r` is strictly smaller.
pub open spec fn is_first_max(s: Seq<int>, r: int) -> bool {
    &&& 0 <= r < s.len()
    &&& forall|i: int| 0 <= i < s.len() ==> s[i] <= s[r]
    &&& forall|i: int| 0 <= i < r ==> s[i] < s[r]
}

/// `r` is the index of the first minimum of `s`.
pub open spec fn is_first_min(s: Seq<int>, r: int) -> bool {
    &&& 0 <= r < s.len()
    &&& forall|i: int| 0 <= i < s.len() ==> s[i] >= s[r]
    &&& forall|i: int| 0 <= i < r ==> s[i] > s[r]
}

/// `v` is the maximum value of `s`.
pub open spec fn is_max_val(s: Seq<int>, v: int) -> bool {
    &&& exists|i: int| 0 <= i < s.len() && s[i] == v
    &&& forall|i: int| 0 <= i < s.len() ==> s[i] <= v
}

/// `v` is the minimum value of `s`.
pub open spec fn is_min_val(s: Seq<int>, v: int) -> bool {
    &&& exists|i: int| 0 <= i < s.len() && s[i] == v
    &&& forall|i: int| 0 <= i < s.len() ==> s[i] >= v
}

/// A sequence has at most one first-maximum index.
///
/// Law: any two indices that both satisfy `is_first_max` coincide; the
/// first-occurrence tie-break makes the chosen arm unique.
pub proof fn lemma_first_max_unique(s: Seq<int>, a: int, b: int)
    requires
        is_first_max(s, a),
        is_first_max(s, b),
    ensures
        a == b,
{
    if a < b {
        assert(s[a] < s[b]);
    }
    if b < a {
        assert(s[b] < s[a]);
    }
}

/// Trait containing helper functions for min and max calculations on vectors.
pub trait ArgBounds<N>: Sized {
    /// The elements of the vector, as mathematical integers.
    spec fn vals(&self) -> Seq<int>;

    /// Returns the index of the first item with maximum value.
    fn arg_max(&self) -> (r: usize)
        requires
            self.vals().len() > 0,
        ensures
            is_first_max(self.vals(), r as int),
    ;

    /// Returns the index of the first item with minimum value.
    fn arg_min(&self) -> (r: usize)
        requires
            self.vals().len() > 0,
        ensures
            is_first_min(self.vals(), r as int),
    ;

    /// Returns the maximum value of the vector.
    fn val_max(&self) -> (r: N)
        requires
            self.vals().len() > 0,
    ;

    /// Returns the minimum value of the vector.
    fn val_min(&self) -> (r: N)
        requires
            self.vals().len() > 0,
    ;
}

impl ArgBounds<i64> for Vec<i64> {
    open spec fn vals(&self) -> Seq<int> {
        int_seq_i64(self@)
    }

    fn arg_max(&self) -> (r: usize)
        ensures
            is_first_max(self.vals(), r as int),
    {
        let mut best: usize = 0;
        let mut idx: usize = 1;
        while idx < self.len()
            invariant
                0 < idx <= self@.len(),
                best < idx,
                forall|i: int| 0 <= i < idx ==> self.vals()[i] <= self.vals()[best as int],
                forall|i: int| 0 <= i < best ==> self.vals()[i] < self.vals()[best as int],
            decreases self@.len() - idx,
        {
            if self[idx] > self[best] {
                best = idx;
            }
            idx = idx + 1;
        }
        best
    }

    fn arg_min(&self) -> (r: usize)
        ensures
            is_first_min(self.vals(), r as int),
    {
        let mut best: usize = 0;
        let mut idx: usize = 1;
        while idx < self.len()
            invariant
                0 < idx <= self@.len(),
                best < idx,
                forall|i: int| 0 <= i < idx ==> self.vals()[i] >= self.vals()[best as int],
                forall|i: int| 0 <= i < best ==> self.vals()[i] > self.vals()[best as int],
            decreases self@.len() - idx,
        {
            if self[idx] < self[best] {
                best = idx;
            }
            idx = idx + 1;
        }
        best
    }

    fn val_max(&self) -> (r: i64)
        ensures
            is_max_val(self.vals(), r as int),
    {
        let i: usize = self.arg_max();
        let v: i64 = self[i];
        proof {
            assert(self.vals()[i as int] == v as int);
        }
        v
    }

    fn val_min(&self) -> (r: i64)
        ensures
            is_min_val(self.vals(), r as int),
    {
        let i: usize = self.arg_min();
        let v: i64 = self[i];
        proof {
            assert(self.vals()[i as int] == v as int);
        }
        v
    }
}

impl ArgBounds<i32> for Vec<i32> {
    open spec fn vals(&self) -> Seq<int> {
        int_seq_i32(self@)
    }

    fn arg_max(&self) -> (r: usize)
        ensures
            is_first_max(self.vals(), r as int),
    {
        let mut best: usize = 0;
        let mut idx: usize = 1;
        while idx < self.len()
            invariant
                0 < idx <= self@.len(),
                best < idx,
                forall|i: int| 0 <= i < idx ==> self.vals()[i] <= self.vals()[best as int],
                forall|i: int| 0 <= i < best ==> self.vals()[i] < self.vals()[best as int],
            decreases self@.len() - idx,
        {
            if self[idx] > self[best] {
                best = idx;
            }
            idx = idx + 1;
        }
        best
    }

    fn arg_min(&self) -> (r: usize)
        ensures
            is_first_min(self.vals(), r as int),
    {
        let mut best: usize = 0;
        let mut idx: usize = 1;
        while idx < self.len()
            invariant
                0 < idx <= self@.len(),
                best < idx,
                forall|i: int| 0 <= i < idx ==> self.vals()[i] >= self.vals()[best as int],
                forall|i: int| 0 <= i < best ==> self.vals()[i] > self.vals()[best as int],
            decreases self@.len() - idx,
        {
            if self[idx] < self[best] {
                best = idx;
            }
            idx = idx + 1;
        }
        best
    }

    fn val_max(&self) -> (r: i32)
        ensures
            is_max_val(self.vals(), r as int),
    {
        let i: usize = self.arg_max();
        let v: i32 = self[i];
        proof {
            assert(self.vals()[i as int] == v as int);
        }
        v
    }

    fn val_min(&self) -> (r: i32)
        ensures
            is_min_val(self.vals(), r as int),
    {
        let i: usize = self.arg_min();
        let v: i32 = self[i];
        proof {
            assert(self.vals()[i as int] == v as int);
        }
        v
    }
}

impl ArgBounds<u32> for Vec<u32> {
    open spec fn vals(&self) -> Seq<int> {
        int_seq_u32(self@)
    }

    fn arg_max(&self) -> (r: usize)
        ensures
            is_first_max(self.vals(), r as int),
    {
        let mut best: usize = 0;
        let mut idx: usize = 1;
        while idx < self.len()
            invariant
                0 < idx <= self@.len(),
                best < idx,
                forall|i: int| 0 <= i < idx ==> self.vals()[i] <= self.vals()[best as int],
                forall|i: int| 0 <= i < best ==> self.vals()[i] < self.vals()[best as int],
            decreases self@.len() - idx,
        {
            if self[idx] > self[best] {
                best = idx;
            }
            idx = idx + 1;
        }
        best
    }

    fn arg_min(&self) -> (r: usize)
        ensures
            is_first_min(self.vals(), r as int),
    {
        let mut best: usize = 0;
        let mut idx: usize = 1;
        while idx < self.len()
            invariant
                0 < idx <= self@.len(),
                best < idx,
                forall|i: int| 0 <= i < idx ==> self.vals()[i] >= self.vals()[best as int],
                forall|i: int| 0 <= i < best ==> self.vals()[i] > self.vals()[best as int],
            decreases self@.len() - idx,
        {
            if self[idx] < self[best] {
                best = idx;
            }
            idx = idx + 1;
        }
        best
    }

    fn val_max(&self) -> (r: u32)
        ensures
            is_max_val(self.vals(), r as int),
    {
        let i: usize = self.arg_max();
        let v: u32 = self[i];
        proof {
            assert(self.vals()[i as int] == v as int);
        }
        v
    }

    fn val_min(&self) -> (r: u32)
        ensures
            is_min_val(self.vals(), r as int),
    {
        let i: usize = self.arg_min();
        let v: u32 = self[i];
        proof {
            assert(self.vals()[i as int] == v as int);
        }
        v
    }
}

} // verus!
