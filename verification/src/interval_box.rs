//! Multi-dimensional axis-aligned boxes: the Cartesian product of one
//! interval per axis. Every operation is the independent per-axis application
//! of the one-dimensional operation, plus a fold for the aggregate measure.

use crate::bound_type::BoundType;
use crate::half::{LeftBounded, RightBounded};
use crate::interval::{span_fold, valid_pair, Interval};
use crate::kd::Kd;
use crate::ndim::NDim;
use crate::IntervalIsEmpty;
use vstd::prelude::*;

verus! {

/// One axis of each box in a sequence of boxes.
pub open spec fn box_axis_column<const N: usize>(s: Seq<BoxN<N>>, ax: int) -> Seq<Interval> {
    s.map_values(|b: BoxN<N>| b.0.0[ax])
}

/// One coordinate of each point in a sequence of points.
pub open spec fn point_axis_column<const N: usize>(s: Seq<Kd<N, i64>>, ax: int) -> Seq<i64> {
    s.map_values(|p: Kd<N, i64>| p.0[ax])
}

/// The product of the first `k` axis measures of a sequence of intervals.
pub open spec fn measures_prod(s: Seq<Interval>, k: int) -> int
    decreases k,
{
    if k <= 0 {
        1
    } else {
        measures_prod(s, k - 1) * s[k - 1].measure_spec()
    }
}

/// An `N`-dimensional axis-aligned box: one interval per axis.
#[derive(Debug, Clone, PartialEq, Eq)]
pub struct BoxN<const N: usize>(pub NDim<N, Interval>);

impl BoxN<2> {
    /// The box `x × y`.
    pub fn new(x: Interval, y: Interval) -> (r: Self)
        ensures
            r.0.0@ =~= seq![x, y],
    {
        let mut v: Vec<Interval> = Vec::new();
        v.push(x);
        v.push(y);
        BoxN(NDim(v))
    }
}

impl BoxN<3> {
    /// The box `x × y × z`.
    pub fn new(x: Interval, y: Interval, z: Interval) -> (r: Self)
        ensures
            r.0.0@ =~= seq![x, y, z],
    {
        let mut v: Vec<Interval> = Vec::new();
        v.push(x);
        v.push(y);
        v.push(z);
        BoxN(NDim(v))
    }
}

impl BoxN<4> {
    /// The box `x × y × z × w`.
    pub fn new(x: Interval, y: Interval, z: Interval, w: Interval) -> (r: Self)
        ensures
            r.0.0@ =~= seq![x, y, z, w],
    {
        let mut v: Vec<Interval> = Vec::new();
        v.push(x);
        v.push(y);
        v.push(z);
        v.push(w);
        BoxN(NDim(v))
    }
}

impl<const N: usize> BoxN<N> {
    /// One well-formed interval per axis.
    pub open spec fn wf(self) -> bool {
        self.0.all_wf()
    }

    /// Wrap one interval per axis into a box.
    pub fn from_array(src: Vec<Interval>) -> (r: Self)
        requires
            src.len() == N,
        ensures
            r.0.0 == src,
    {
        BoxN(NDim(src))
    }

    /// The axis intervals, consumed.
    pub fn into_array(self) -> (r: Vec<Interval>)
        ensures
            r == self.0.0,
    {
        self.0.0
    }

    /// Per-axis construction of the box `[min, max]^N` over two corner
    /// points, each axis a closed interval; total.
    pub fn between(a: &Kd<N, i64>, b: &Kd<N, i64>) -> (r: Self)
        requires
            a.wf(),
            b.wf(),
        ensures
            r.wf(),
            forall|i: int|
                0 <= i < N ==> #[trigger] r.0.0[i] == Interval::between_spec(a.0[i], b.0[i]),
    {
        let mut v: Vec<Interval> = Vec::new();
        let mut i: usize = 0;
        while i < a.0.len()
            invariant
                a.wf(),
                b.wf(),
                0 <= i <= N,
                v.len() == i,
                forall|j: int|
                    0 <= j < i ==> #[trigger] v[j] == Interval::between_spec(a.0[j], b.0[j]),
                forall|j: int| 0 <= j < i ==> (#[trigger] v[j]).wf(),
            decreases N - i,
        {
            v.push(Interval::between(a.0[i], b.0[i]));
            i = i + 1;
        }
        BoxN(NDim(v))
    }

    /// Per-axis construction with the requested kinds over two corner
    /// points; `None` as soon as one axis closes an empty region.
    pub fn try_between(a: &Kd<N, i64>, b: &Kd<N, i64>, left: BoundType, right: BoundType) -> (r:
        Option<Self>)
        requires
            a.wf(),
            b.wf(),
        ensures
            r is Some <==> forall|i: int|
                0 <= i < N ==> Interval::try_between_spec(
                    a.0[i],
                    b.0[i],
                    left,
                    right,
                ) is Some,
            r matches Some(v) ==> v.wf() && forall|i: int|
                0 <= i < N ==> Some(#[trigger] v.0.0[i]) == Interval::try_between_spec(
                    a.0[i],
                    b.0[i],
                    left,
                    right,
                ),
    {
        let mut v: Vec<Interval> = Vec::new();
        let mut i: usize = 0;
        while i < a.0.len()
            invariant
                a.wf(),
                b.wf(),
                0 <= i <= N,
                v.len() == i,
                forall|j: int|
                    0 <= j < i ==> Some(#[trigger] v[j]) == Interval::try_between_spec(
                        a.0[j],
                        b.0[j],
                        left,
                        right,
                    ),
                forall|j: int| 0 <= j < i ==> (#[trigger] v[j]).wf(),
            decreases N - i,
        {
            match Interval::try_between(a.0[i], b.0[i], left, right) {
                Some(iv) => {
                    v.push(iv);
                },
                None => {
                    return None;
                },
            }
            i = i + 1;
        }
        proof {
            assert forall|k: int| 0 <= k < N implies Interval::try_between_spec(
                a.0[k],
                b.0[k],
                left,
                right,
            ) is Some by {
                assert(Some(v[k]) == Interval::try_between_spec(a.0[k], b.0[k], left, right));
            }
        }
        Some(BoxN(NDim(v)))
    }

    /// The raw lower bound value of each axis.
    pub fn inf(&self) -> (r: NDim<N, i64>)
        requires
            self.wf(),
        ensures
            r.wf(),
            forall|i: int| 0 <= i < N ==> #[trigger] r.0[i] == self.0.0[i].left.limit,
    {
        let mut v: Vec<i64> = Vec::new();
        let mut i: usize = 0;
        while i < self.0.0.len()
            invariant
                self.wf(),
                0 <= i <= N,
                v.len() == i,
                forall|j: int| 0 <= j < i ==> #[trigger] v[j] == self.0.0[j].left.limit,
            decreases N - i,
        {
            v.push(self.0.0[i].inf());
            i = i + 1;
        }
        NDim(v)
    }

    /// The raw upper bound value of each axis.
    pub fn sup(&self) -> (r: NDim<N, i64>)
        requires
            self.wf(),
        ensures
            r.wf(),
            forall|i: int| 0 <= i < N ==> #[trigger] r.0[i] == self.0.0[i].right.limit,
    {
        let mut v: Vec<i64> = Vec::new();
        let mut i: usize = 0;
        while i < self.0.0.len()
            invariant
                self.wf(),
                0 <= i <= N,
                v.len() == i,
                forall|j: int| 0 <= j < i ==> #[trigger] v[j] == self.0.0[j].right.limit,
            decreases N - i,
        {
            v.push(self.0.0[i].sup());
            i = i + 1;
        }
        NDim(v)
    }

    /// The lower corner as a point.
    pub fn inf_point(&self) -> (r: Kd<N, i64>)
        requires
            self.wf(),
        ensures
            r.wf(),
            forall|i: int| 0 <= i < N ==> #[trigger] r.0[i] == self.0.0[i].left.limit,
    {
        Kd(self.inf().into_array())
    }

    /// The upper corner as a point.
    pub fn sup_point(&self) -> (r: Kd<N, i64>)
        requires
            self.wf(),
        ensures
            r.wf(),
            forall|i: int| 0 <= i < N ==> #[trigger] r.0[i] == self.0.0[i].right.limit,
    {
        Kd(self.sup().into_array())
    }

    /// Whether the point lies inside on every axis.
    pub fn contains(&self, t: &Kd<N, i64>) -> (r: bool)
        requires
            self.wf(),
            t.wf(),
        ensures
            r == forall|i: int|
                0 <= i < N ==> (#[trigger] self.0.0[i]).contains_spec(t.0[i] as int),
    {
        let mut i: usize = 0;
        while i < self.0.0.len()
            invariant
                self.wf(),
                t.wf(),
                0 <= i <= N,
                forall|j: int|
                    0 <= j < i ==> (#[trigger] self.0.0[j]).contains_spec(t.0[j] as int),
            decreases N - i,
        {
            if !self.0.0[i].contains(&t.0[i]) {
                return false;
            }
            i = i + 1;
        }
        true
    }

    /// Whether `self` spans at least `other` on every axis.
    pub fn includes(&self, other: &Self) -> (r: bool)
        requires
            self.wf(),
            other.wf(),
        ensures
            r == forall|i: int|
                0 <= i < N ==> (#[trigger] self.0.0[i]).includes_spec(other.0.0[i]),
    {
        let mut i: usize = 0;
        while i < self.0.0.len()
            invariant
                self.wf(),
                other.wf(),
                0 <= i <= N,
                forall|j: int| 0 <= j < i ==> (#[trigger] self.0.0[j]).includes_spec(other.0.0[j]),
            decreases N - i,
        {
            if !self.0.0[i].includes(&other.0.0[i]) {
                return false;
            }
            i = i + 1;
        }
        true
    }

    /// Whether the boxes share a region: every axis pair overlaps.
    pub fn overlaps(&self, other: &Self) -> (r: bool)
        requires
            self.wf(),
            other.wf(),
        ensures
            r == forall|i: int|
                0 <= i < N ==> (#[trigger] self.0.0[i]).intersection_spec(other.0.0[i]) is Some,
    {
        let mut i: usize = 0;
        while i < self.0.0.len()
            invariant
                self.wf(),
                other.wf(),
                0 <= i <= N,
                forall|j: int|
                    0 <= j < i ==> (#[trigger] self.0.0[j]).intersection_spec(
                        other.0.0[j],
                    ) is Some,
            decreases N - i,
        {
            if !self.0.0[i].overlaps(&other.0.0[i]) {
                return false;
            }
            i = i + 1;
        }
        true
    }

    /// The closure of every axis: all bounds forced inclusive.
    pub fn closure(&self) -> (r: Self)
        requires
            self.wf(),
        ensures
            r.wf(),
            forall|i: int|
                0 <= i < N ==> (#[trigger] r.0.0[i]) == (Interval {
                    left: LeftBounded {
                        limit: self.0.0[i].left.limit,
                        bound_type: BoundType::Inclusive,
                    },
                    right: RightBounded {
                        limit: self.0.0[i].right.limit,
                        bound_type: BoundType::Inclusive,
                    },
                }),
    {
        let mut v: Vec<Interval> = Vec::new();
        let mut i: usize = 0;
        while i < self.0.0.len()
            invariant
                self.wf(),
                0 <= i <= N,
                v.len() == i,
                forall|j: int|
                    0 <= j < i ==> (#[trigger] v[j]) == (Interval {
                        left: LeftBounded {
                            limit: self.0.0[j].left.limit,
                            bound_type: BoundType::Inclusive,
                        },
                        right: RightBounded {
                            limit: self.0.0[j].right.limit,
                            bound_type: BoundType::Inclusive,
                        },
                    }),
                forall|j: int| 0 <= j < i ==> (#[trigger] v[j]).wf(),
            decreases N - i,
        {
            v.push(self.0.0[i].closure());
            i = i + 1;
        }
        BoxN(NDim(v))
    }

    /// The interior of every axis: all bounds forced exclusive, each axis
    /// revalidated; `None` as soon as one open axis is empty.
    pub fn interior(&self) -> (r: Option<Self>)
        requires
            self.wf(),
        ensures
            r is Some <==> forall|i: int|
                0 <= i < N ==> valid_pair(
                    LeftBounded {
                        limit: (#[trigger] self.0.0[i]).left.limit,
                        bound_type: BoundType::Exclusive,
                    },
                    RightBounded {
                        limit: self.0.0[i].right.limit,
                        bound_type: BoundType::Exclusive,
                    },
                ),
            r matches Some(v) ==> v.wf() && forall|i: int|
                0 <= i < N ==> (#[trigger] v.0.0[i]) == (Interval {
                    left: LeftBounded {
                        limit: self.0.0[i].left.limit,
                        bound_type: BoundType::Exclusive,
                    },
                    right: RightBounded {
                        limit: self.0.0[i].right.limit,
                        bound_type: BoundType::Exclusive,
                    },
                }),
    {
        let mut v: Vec<Interval> = Vec::new();
        let mut i: usize = 0;
        while i < self.0.0.len()
            invariant
                self.wf(),
                0 <= i <= N,
                v.len() == i,
                forall|j: int|
                    0 <= j < i ==> (#[trigger] v[j]) == (Interval {
                        left: LeftBounded {
                            limit: self.0.0[j].left.limit,
                            bound_type: BoundType::Exclusive,
                        },
                        right: RightBounded {
                            limit: self.0.0[j].right.limit,
                            bound_type: BoundType::Exclusive,
                        },
                    }),
                forall|j: int| 0 <= j < i ==> (#[trigger] v[j]).wf(),
            decreases N - i,
        {
            match self.0.0[i].interior() {
                Some(iv) => {
                    v.push(iv);
                },
                None => {
                    return None;
                },
            }
            i = i + 1;
        }
        proof {
            assert forall|k: int| 0 <= k < N implies valid_pair(
                LeftBounded {
                    limit: (#[trigger] self.0.0[k]).left.limit,
                    bound_type: BoundType::Exclusive,
                },
                RightBounded { limit: self.0.0[k].right.limit, bound_type: BoundType::Exclusive },
            ) by {
                assert(v[k].wf());
            }
        }
        Some(BoxN(NDim(v)))
    }

    /// The common region on every axis; `None` as soon as one axis pair is
    /// disjoint.
    pub fn intersection(&self, other: &Self) -> (r: Option<Self>)
        requires
            self.wf(),
            other.wf(),
        ensures
            r is Some <==> forall|i: int|
                0 <= i < N ==> (#[trigger] self.0.0[i]).intersection_spec(other.0.0[i]) is Some,
            r matches Some(v) ==> v.wf() && forall|i: int|
                0 <= i < N ==> Some(#[trigger] v.0.0[i]) == self.0.0[i].intersection_spec(
                    other.0.0[i],
                ),
    {
        match self.0.intersection(&other.0) {
            Some(nd) => {
                proof {
                    assert forall|k: int| 0 <= k < N implies (#[trigger] nd.0[k]).wf() by {
                        assert(Some(nd.0[k]) == self.0.0[k].intersection_spec(other.0.0[k]));
                    }
                }
                Some(BoxN(nd))
            },
            None => None,
        }
    }

    /// The per-axis span: the smallest box containing both operands.
    pub fn span(&self, other: &Self) -> (r: Self)
        requires
            self.wf(),
            other.wf(),
        ensures
            r.wf(),
            forall|i: int|
                0 <= i < N ==> #[trigger] r.0.0[i] == self.0.0[i].span_spec(other.0.0[i]),
    {
        BoxN(self.0.union(&other.0))
    }

    /// Grow every axis outward by `delta` (shrink when negative); fails with
    /// [`IntervalIsEmpty`] as soon as one axis crosses its bounds.
    pub fn dilate(&self, delta: i64) -> (r: Result<Self, IntervalIsEmpty>)
        requires
            self.wf(),
            forall|i: int|
                0 <= i < N ==> i64::MIN <= (#[trigger] self.0.0[i]).left.limit - delta
                    <= i64::MAX,
            forall|i: int|
                0 <= i < N ==> i64::MIN <= (#[trigger] self.0.0[i]).right.limit + delta
                    <= i64::MAX,
        ensures
            r is Ok <==> forall|i: int|
                0 <= i < N ==> valid_pair(
                    LeftBounded {
                        limit: ((#[trigger] self.0.0[i]).left.limit - delta) as i64,
                        bound_type: self.0.0[i].left.bound_type,
                    },
                    RightBounded {
                        limit: (self.0.0[i].right.limit + delta) as i64,
                        bound_type: self.0.0[i].right.bound_type,
                    },
                ),
            r matches Ok(v) ==> v.wf() && forall|i: int|
                0 <= i < N ==> (#[trigger] v.0.0[i]) == (Interval {
                    left: LeftBounded {
                        limit: (self.0.0[i].left.limit - delta) as i64,
                        bound_type: self.0.0[i].left.bound_type,
                    },
                    right: RightBounded {
                        limit: (self.0.0[i].right.limit + delta) as i64,
                        bound_type: self.0.0[i].right.bound_type,
                    },
                }),
    {
        let mut v: Vec<Interval> = Vec::new();
        let mut i: usize = 0;
        while i < self.0.0.len()
            invariant
                self.wf(),
                forall|k: int|
                    0 <= k < N ==> i64::MIN <= (#[trigger] self.0.0[k]).left.limit - delta
                        <= i64::MAX,
                forall|k: int|
                    0 <= k < N ==> i64::MIN <= (#[trigger] self.0.0[k]).right.limit + delta
                        <= i64::MAX,
                0 <= i <= N,
                v.len() == i,
                forall|j: int|
                    0 <= j < i ==> (#[trigger] v[j]) == (Interval {
                        left: LeftBounded {
                            limit: (self.0.0[j].left.limit - delta) as i64,
                            bound_type: self.0.0[j].left.bound_type,
                        },
                        right: RightBounded {
                            limit: (self.0.0[j].right.limit + delta) as i64,
                            bound_type: self.0.0[j].right.bound_type,
                        },
                    }),
                forall|j: int| 0 <= j < i ==> (#[trigger] v[j]).wf(),
            decreases N - i,
        {
            match self.0.0[i].dilate(delta) {
                Ok(iv) => {
                    v.push(iv);
                },
                Err(e) => {
                    return Err(e);
                },
            }
            i = i + 1;
        }
        proof {
            assert forall|k: int| 0 <= k < N implies valid_pair(
                LeftBounded {
                    limit: ((#[trigger] self.0.0[k]).left.limit - delta) as i64,
                    bound_type: self.0.0[k].left.bound_type,
                },
                RightBounded {
                    limit: (self.0.0[k].right.limit + delta) as i64,
                    bound_type: self.0.0[k].right.bound_type,
                },
            ) by {
                assert(v[k].wf());
            }
        }
        Ok(BoxN(NDim(v)))
    }

    /// Widen every axis to take the corresponding coordinate of `p` in.
    pub fn hull(&self, p: &Kd<N, i64>) -> (r: Self)
        requires
            self.wf(),
            p.wf(),
        ensures
            r.wf(),
            forall|i: int|
                0 <= i < N ==> (#[trigger] r.0.0[i]) == (Interval {
                    left: self.0.0[i].left.hull_spec(p.0[i]),
                    right: self.0.0[i].right.hull_spec(p.0[i]),
                }),
    {
        let mut v: Vec<Interval> = Vec::new();
        let mut i: usize = 0;
        while i < self.0.0.len()
            invariant
                self.wf(),
                p.wf(),
                0 <= i <= N,
                v.len() == i,
                forall|j: int|
                    0 <= j < i ==> (#[trigger] v[j]) == (Interval {
                        left: self.0.0[j].left.hull_spec(p.0[j]),
                        right: self.0.0[j].right.hull_spec(p.0[j]),
                    }),
                forall|j: int| 0 <= j < i ==> (#[trigger] v[j]).wf(),
            decreases N - i,
        {
            v.push(self.0.0[i].hull(p.0[i]));
            i = i + 1;
        }
        BoxN(NDim(v))
    }

    /// Fold of the per-axis span over a sequence of boxes; `None` on an
    /// empty sequence.
    pub fn span_many(items: &Vec<BoxN<N>>) -> (r: Option<Self>)
        requires
            forall|k: int| 0 <= k < items.len() ==> (#[trigger] items[k]).wf(),
        ensures
            r is Some <==> items.len() > 0,
            r matches Some(v) ==> v.wf() && forall|ax: int|
                0 <= ax < N ==> #[trigger] v.0.0[ax] == span_fold(box_axis_column(items@, ax)),
    {
        if items.len() == 0 {
            return None;
        }
        let mut v0: Vec<Interval> = Vec::new();
        let mut j: usize = 0;
        while j < items[0].0.0.len()
            invariant
                forall|k: int| 0 <= k < items.len() ==> (#[trigger] items[k]).wf(),
                items.len() > 0,
                0 <= j <= N,
                v0.len() == j,
                forall|k: int| 0 <= k < j ==> #[trigger] v0[k] == items[0].0.0[k],
            decreases N - j,
        {
            v0.push(items[0].0.0[j]);
            j = j + 1;
        }
        let mut acc = BoxN(NDim(v0));
        let mut i: usize = 1;
        proof {
            assert forall|ax: int| 0 <= ax < N implies #[trigger] acc.0.0[ax] == span_fold(
                box_axis_column(items@.take(1), ax),
            ) by {
                assert(box_axis_column(items@.take(1), ax) =~= seq![items@[0].0.0[ax]]);
            }
        }
        while i < items.len()
            invariant
                1 <= i <= items.len(),
                forall|k: int| 0 <= k < items.len() ==> (#[trigger] items[k]).wf(),
                acc.wf(),
                forall|ax: int|
                    0 <= ax < N ==> #[trigger] acc.0.0[ax] == span_fold(
                        box_axis_column(items@.take(i as int), ax),
                    ),
            decreases items.len() - i,
        {
            let next = acc.span(&items[i]);
            proof {
                assert forall|ax: int| 0 <= ax < N implies #[trigger] next.0.0[ax] == span_fold(
                    box_axis_column(items@.take(i + 1), ax),
                ) by {
                    let col = box_axis_column(items@.take(i + 1), ax);
                    assert(col.drop_last() =~= box_axis_column(items@.take(i as int), ax));
                    assert(col.last() == items@[i as int].0.0[ax]);
                }
            }
            acc = next;
            i = i + 1;
        }
        proof {
            assert forall|ax: int| 0 <= ax < N implies box_axis_column(
                items@.take(items.len() as int),
                ax,
            ) =~= box_axis_column(items@, ax) by {}
        }
        Some(acc)
    }

    /// The closed hull of a set of points: per axis, `[min, max]` of that
    /// coordinate over all points. `None` on an empty sequence.
    pub fn hull_many(points: &Vec<Kd<N, i64>>) -> (r: Option<Self>)
        requires
            forall|k: int| 0 <= k < points.len() ==> (#[trigger] points[k]).wf(),
        ensures
            r is Some <==> points.len() > 0,
            r matches Some(v) ==> v.wf() && forall|ax: int|
                0 <= ax < N ==> (#[trigger] v.0.0[ax]) == (Interval {
                    left: LeftBounded {
                        limit: crate::interval::seq_min(point_axis_column(points@, ax)) as i64,
                        bound_type: BoundType::Inclusive,
                    },
                    right: RightBounded {
                        limit: crate::interval::seq_max(point_axis_column(points@, ax)) as i64,
                        bound_type: BoundType::Inclusive,
                    },
                }),
    {
        if points.len() == 0 {
            return None;
        }
        let mut v: Vec<Interval> = Vec::new();
        let mut ax: usize = 0;
        while ax < points[0].0.len()
            invariant
                forall|k: int| 0 <= k < points.len() ==> (#[trigger] points[k]).wf(),
                points.len() > 0,
                0 <= ax <= N,
                v.len() == ax,
                forall|a: int|
                    0 <= a < ax ==> (#[trigger] v[a]) == (Interval {
                        left: LeftBounded {
                            limit: crate::interval::seq_min(point_axis_column(points@, a)) as i64,
                            bound_type: BoundType::Inclusive,
                        },
                        right: RightBounded {
                            limit: crate::interval::seq_max(point_axis_column(points@, a)) as i64,
                            bound_type: BoundType::Inclusive,
                        },
                    }),
                forall|a: int| 0 <= a < ax ==> (#[trigger] v[a]).wf(),
            decreases N - ax,
        {
            let ghost col = point_axis_column(points@, ax as int);
            let mut lo = points[0].0[ax];
            let mut hi = lo;
            let mut k: usize = 1;
            proof {
                assert(col.take(1) =~= seq![points@[0].0[ax as int]]);
            }
            while k < points.len()
                invariant
                    forall|q: int| 0 <= q < points.len() ==> (#[trigger] points[q]).wf(),
                    points.len() > 0,
                    0 <= ax < N,
                    1 <= k <= points.len(),
                    col == point_axis_column(points@, ax as int),
                    lo as int == crate::interval::seq_min(col.take(k as int)),
                    hi as int == crate::interval::seq_max(col.take(k as int)),
                    lo <= hi,
                decreases points.len() - k,
            {
                let x = points[k].0[ax];
                proof {
                    assert(col.take(k + 1).drop_last() =~= col.take(k as int));
                    assert(col.take(k + 1).last() == points@[k as int].0[ax as int]);
                }
                if x < lo {
                    lo = x;
                } else if hi < x {
                    hi = x;
                }
                k = k + 1;
            }
            proof {
                assert(col.take(points.len() as int) =~= col);
            }
            v.push(
                Interval {
                    left: LeftBounded { limit: lo, bound_type: BoundType::Inclusive },
                    right: RightBounded { limit: hi, bound_type: BoundType::Inclusive },
                },
            );
            ax = ax + 1;
        }
        Some(BoxN(NDim(v)))
    }

    /// The length of every axis.
    pub fn size(&self) -> (r: NDim<N, i64>)
        requires
            self.wf(),
            forall|i: int|
                0 <= i < N ==> (#[trigger] self.0.0[i]).measure_spec() <= i64::MAX,
        ensures
            r.wf(),
            forall|i: int| 0 <= i < N ==> #[trigger] r.0[i] as int == self.0.0[i].measure_spec(),
    {
        self.0.size()
    }

    /// The volume of the box: the product of the axis measures.
    pub fn measure(&self) -> (r: i64)
        requires
            self.wf(),
            forall|i: int|
                0 <= i < N ==> (#[trigger] self.0.0[i]).measure_spec() <= i64::MAX,
            forall|k: int|
                0 <= k <= N ==> i64::MIN <= #[trigger] measures_prod(self.0.0@, k) <= i64::MAX,
        ensures
            r as int == measures_prod(self.0.0@, N as int),
    {
        let mut acc: i64 = 1;
        let mut i: usize = 0;
        proof {
            assert(measures_prod(self.0.0@, 0) == 1);
        }
        while i < self.0.0.len()
            invariant
                self.wf(),
                forall|k: int|
                    0 <= k < N ==> (#[trigger] self.0.0[k]).measure_spec() <= i64::MAX,
                forall|k: int|
                    0 <= k <= N ==> i64::MIN <= #[trigger] measures_prod(self.0.0@, k)
                        <= i64::MAX,
                0 <= i <= N,
                acc as int == measures_prod(self.0.0@, i as int),
            decreases N - i,
        {
            let m = self.0.0[i].measure();
            proof {
                assert(measures_prod(self.0.0@, i + 1) == measures_prod(self.0.0@, i as int)
                    * self.0.0[i as int].measure_spec());
            }
            acc = acc * m;
            i = i + 1;
        }
        acc
    }

    /// The midpoint of every axis, each rounded toward its lower bound.
    pub fn center(&self) -> (r: NDim<N, i64>)
        requires
            self.wf(),
            forall|i: int|
                0 <= i < N ==> (#[trigger] self.0.0[i]).measure_spec() <= i64::MAX,
        ensures
            r.wf(),
            forall|i: int| 0 <= i < N ==> #[trigger] r.0[i] as int == self.0.0[i].center_spec(),
    {
        self.0.center()
    }
}

} // verus!
