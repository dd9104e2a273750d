//! Interval operations lifted pointwise over a tuple of intervals, one per
//! axis. No axis interacts with another: every operation here is the
//! independent per-axis application of the one-dimensional operation.

use crate::half::{LeftBounded, RightBounded};
use crate::interval::{span_fold, Interval};
use crate::ndim::NDim;
use vstd::prelude::*;

verus! {

/// One axis of each tuple in a sequence of interval tuples.
pub open spec fn axis_column<const N: usize>(s: Seq<NDim<N, Interval>>, ax: int) -> Seq<Interval> {
    s.map_values(|p: NDim<N, Interval>| p.0[ax])
}

impl<const N: usize> NDim<N, Interval> {
    /// One interval per axis, each well-formed.
    pub open spec fn all_wf(self) -> bool {
        self.wf() && forall|i: int| 0 <= i < self.0.len() ==> (#[trigger] self.0[i]).wf()
    }

    /// The lower half-bound of each axis.
    pub fn left(&self) -> (r: NDim<N, LeftBounded>)
        requires
            self.wf(),
        ensures
            r.wf(),
            forall|i: int| 0 <= i < N ==> #[trigger] r.0[i] == self.0[i].left,
    {
        let mut v: Vec<LeftBounded> = Vec::new();
        let mut i: usize = 0;
        while i < self.0.len()
            invariant
                self.wf(),
                0 <= i <= N,
                v.len() == i,
                forall|j: int| 0 <= j < i ==> #[trigger] v[j] == self.0[j].left,
            decreases N - i,
        {
            v.push(self.0[i].left);
            i = i + 1;
        }
        NDim(v)
    }

    /// The upper half-bound of each axis.
    pub fn right(&self) -> (r: NDim<N, RightBounded>)
        requires
            self.wf(),
        ensures
            r.wf(),
            forall|i: int| 0 <= i < N ==> #[trigger] r.0[i] == self.0[i].right,
    {
        let mut v: Vec<RightBounded> = Vec::new();
        let mut i: usize = 0;
        while i < self.0.len()
            invariant
                self.wf(),
                0 <= i <= N,
                v.len() == i,
                forall|j: int| 0 <= j < i ==> #[trigger] v[j] == self.0[j].right,
            decreases N - i,
        {
            v.push(self.0[i].right);
            i = i + 1;
        }
        NDim(v)
    }

    /// Whether the point lies inside on every axis.
    pub fn contains(&self, t: &NDim<N, i64>) -> (r: bool)
        requires
            self.wf(),
            t.wf(),
        ensures
            r == forall|i: int|
                0 <= i < N ==> (#[trigger] self.0[i]).contains_spec(t.0[i] as int),
    {
        let mut i: usize = 0;
        while i < self.0.len()
            invariant
                self.wf(),
                t.wf(),
                0 <= i <= N,
                forall|j: int| 0 <= j < i ==> (#[trigger] self.0[j]).contains_spec(t.0[j] as int),
            decreases N - i,
        {
            if !self.0[i].contains(&t.0[i]) {
                return false;
            }
            i = i + 1;
        }
        true
    }

    /// Whether `self` spans at least `other` on every axis.
    pub fn includes(&self, other: &Self) -> (r: bool)
        requires
            self.wf(),
            other.wf(),
        ensures
            r == forall|i: int|
                0 <= i < N ==> (#[trigger] self.0[i]).includes_spec(other.0[i]),
    {
        let mut i: usize = 0;
        while i < self.0.len()
            invariant
                self.wf(),
                other.wf(),
                0 <= i <= N,
                forall|j: int| 0 <= j < i ==> (#[trigger] self.0[j]).includes_spec(other.0[j]),
            decreases N - i,
        {
            if !self.0[i].includes(&other.0[i]) {
                return false;
            }
            i = i + 1;
        }
        true
    }

    /// The least contained integer point, axis by axis.
    pub fn min_val(&self) -> (r: NDim<N, i64>)
        requires
            self.all_wf(),
        ensures
            r.wf(),
            forall|i: int| 0 <= i < N ==> #[trigger] r.0[i] as int == self.0[i].min_val_spec(),
    {
        let mut v: Vec<i64> = Vec::new();
        let mut i: usize = 0;
        while i < self.0.len()
            invariant
                self.all_wf(),
                0 <= i <= N,
                v.len() == i,
                forall|j: int| 0 <= j < i ==> #[trigger] v[j] as int == self.0[j].min_val_spec(),
            decreases N - i,
        {
            v.push(self.0[i].min_val());
            i = i + 1;
        }
        NDim(v)
    }

    /// The greatest contained integer point, axis by axis.
    pub fn max_val(&self) -> (r: NDim<N, i64>)
        requires
            self.all_wf(),
        ensures
            r.wf(),
            forall|i: int| 0 <= i < N ==> #[trigger] r.0[i] as int == self.0[i].max_val_spec(),
    {
        let mut v: Vec<i64> = Vec::new();
        let mut i: usize = 0;
        while i < self.0.len()
            invariant
                self.all_wf(),
                0 <= i <= N,
                v.len() == i,
                forall|j: int| 0 <= j < i ==> #[trigger] v[j] as int == self.0[j].max_val_spec(),
            decreases N - i,
        {
            v.push(self.0[i].max_val());
            i = i + 1;
        }
        NDim(v)
    }

    /// The common region on every axis; `None` as soon as one axis pair is
    /// disjoint.
    pub fn intersection(&self, other: &Self) -> (r: Option<Self>)
        requires
            self.wf(),
            other.wf(),
        ensures
            r is Some <==> forall|i: int|
                0 <= i < N ==> (#[trigger] self.0[i]).intersection_spec(other.0[i]) is Some,
            r matches Some(v) ==> v.wf() && forall|i: int|
                0 <= i < N ==> Some(#[trigger] v.0[i]) == self.0[i].intersection_spec(other.0[i]),
    {
        let mut v: Vec<Interval> = Vec::new();
        let mut i: usize = 0;
        while i < self.0.len()
            invariant
                self.wf(),
                other.wf(),
                0 <= i <= N,
                v.len() == i,
                forall|j: int|
                    0 <= j < i ==> Some(#[trigger] v[j]) == self.0[j].intersection_spec(
                        other.0[j],
                    ),
            decreases N - i,
        {
            match self.0[i].intersection(&other.0[i]) {
                Some(iv) => {
                    v.push(iv);
                },
                None => {
                    return None;
                },
            }
            i = i + 1;
        }
        proof {
            assert forall|k: int| 0 <= k < N implies (#[trigger] self.0[k]).intersection_spec(
                other.0[k],
            ) is Some by {
                assert(Some(v[k]) == self.0[k].intersection_spec(other.0[k]));
            }
        }
        Some(NDim(v))
    }

    /// The span on every axis: the smallest box-shaped region containing
    /// both operands.
    pub fn union(&self, other: &Self) -> (r: Self)
        requires
            self.all_wf(),
            other.all_wf(),
        ensures
            r.all_wf(),
            forall|i: int| 0 <= i < N ==> #[trigger] r.0[i] == self.0[i].span_spec(other.0[i]),
    {
        let mut v: Vec<Interval> = Vec::new();
        let mut i: usize = 0;
        while i < self.0.len()
            invariant
                self.all_wf(),
                other.all_wf(),
                0 <= i <= N,
                v.len() == i,
                forall|j: int| 0 <= j < i ==> #[trigger] v[j] == self.0[j].span_spec(other.0[j]),
                forall|j: int| 0 <= j < i ==> (#[trigger] v[j]).wf(),
            decreases N - i,
        {
            v.push(self.0[i].span(&other.0[i]));
            i = i + 1;
        }
        NDim(v)
    }

    /// Fold of the per-axis span over a sequence of interval tuples; `None`
    /// on an empty sequence.
    pub fn bound(items: &Vec<NDim<N, Interval>>) -> (r: Option<Self>)
        requires
            forall|k: int| 0 <= k < items.len() ==> (#[trigger] items[k]).all_wf(),
        ensures
            r is Some <==> items.len() > 0,
            r matches Some(v) ==> v.all_wf() && forall|ax: int|
                0 <= ax < N ==> #[trigger] v.0[ax] == span_fold(axis_column(items@, ax)),
    {
        if items.len() == 0 {
            return None;
        }
        let mut v0: Vec<Interval> = Vec::new();
        let mut j: usize = 0;
        while j < items[0].0.len()
            invariant
                forall|k: int| 0 <= k < items.len() ==> (#[trigger] items[k]).all_wf(),
                items.len() > 0,
                0 <= j <= N,
                v0.len() == j,
                forall|k: int| 0 <= k < j ==> #[trigger] v0[k] == items[0].0[k],
            decreases N - j,
        {
            v0.push(items[0].0[j]);
            j = j + 1;
        }
        let mut acc = NDim(v0);
        let mut i: usize = 1;
        proof {
            assert forall|ax: int| 0 <= ax < N implies #[trigger] acc.0[ax] == span_fold(
                axis_column(items@.take(1), ax),
            ) by {
                assert(axis_column(items@.take(1), ax) =~= seq![items@[0].0[ax]]);
            }
        }
        while i < items.len()
            invariant
                1 <= i <= items.len(),
                forall|k: int| 0 <= k < items.len() ==> (#[trigger] items[k]).all_wf(),
                acc.all_wf(),
                forall|ax: int|
                    0 <= ax < N ==> #[trigger] acc.0[ax] == span_fold(
                        axis_column(items@.take(i as int), ax),
                    ),
            decreases items.len() - i,
        {
            let next = acc.union(&items[i]);
            proof {
                assert forall|ax: int| 0 <= ax < N implies #[trigger] next.0[ax] == span_fold(
                    axis_column(items@.take(i + 1), ax),
                ) by {
                    let col = axis_column(items@.take(i + 1), ax);
                    assert(col.drop_last() =~= axis_column(items@.take(i as int), ax));
                    assert(col.last() == items@[i as int].0[ax]);
                }
            }
            acc = next;
            i = i + 1;
        }
        proof {
            assert forall|ax: int| 0 <= ax < N implies axis_column(
                items@.take(items.len() as int),
                ax,
            ) =~= axis_column(items@, ax) by {}
        }
        Some(acc)
    }

    /// The midpoint of every axis, each rounded toward its lower bound.
    pub fn center(&self) -> (r: NDim<N, i64>)
        requires
            self.all_wf(),
            forall|i: int|
                0 <= i < N ==> (#[trigger] self.0[i]).measure_spec() <= i64::MAX,
        ensures
            r.wf(),
            forall|i: int| 0 <= i < N ==> #[trigger] r.0[i] as int == self.0[i].center_spec(),
    {
        let mut v: Vec<i64> = Vec::new();
        let mut i: usize = 0;
        while i < self.0.len()
            invariant
                self.all_wf(),
                forall|k: int| 0 <= k < N ==> (#[trigger] self.0[k]).measure_spec() <= i64::MAX,
                0 <= i <= N,
                v.len() == i,
                forall|j: int| 0 <= j < i ==> #[trigger] v[j] as int == self.0[j].center_spec(),
            decreases N - i,
        {
            v.push(self.0[i].center());
            i = i + 1;
        }
        NDim(v)
    }

    /// The length of every axis.
    pub fn size(&self) -> (r: NDim<N, i64>)
        requires
            self.all_wf(),
            forall|i: int|
                0 <= i < N ==> (#[trigger] self.0[i]).measure_spec() <= i64::MAX,
        ensures
            r.wf(),
            forall|i: int| 0 <= i < N ==> #[trigger] r.0[i] as int == self.0[i].measure_spec(),
    {
        let mut v: Vec<i64> = Vec::new();
        let mut i: usize = 0;
        while i < self.0.len()
            invariant
                self.all_wf(),
                forall|k: int| 0 <= k < N ==> (#[trigger] self.0[k]).measure_spec() <= i64::MAX,
                0 <= i <= N,
                v.len() == i,
                forall|j: int| 0 <= j < i ==> #[trigger] v[j] as int == self.0[j].measure_spec(),
            decreases N - i,
        {
            v.push(self.0[i].measure());
            i = i + 1;
        }
        NDim(v)
    }
}

} // verus!
