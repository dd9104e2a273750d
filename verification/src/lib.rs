//! Mathematical intervals over an ordered integer scalar: `[a, b]`, `(a, b)`,
//! `[a, b)` and `(a, b]`, with the algebra of set operations on them —
//! containment, subset test, intersection, span, gap, dilation and the derived
//! numeric queries — together with multi-dimensional axis-aligned boxes built
//! as one interval per axis.
//!
//! Every operation is a pure function over immutable values. Construction is
//! the single validation gate: an `Interval` only exists when it is non-empty
//! under its own inclusivity rules, and every derived operation either
//! preserves that invariant or returns an explicit `None` / error instead of a
//! degenerate interval.

pub mod bound;
pub mod bound_type;
pub mod half;
pub mod interval;
pub mod interval_box;
pub mod kd;
pub mod ndim;
pub mod nullable;
pub mod pow;
pub mod std_range;

pub use bound::{exclusive, inclusive, Bound};
pub use bound_type::{BoundType, Exclusive, Inclusive, Left, Right};
pub use half::{LeftBounded, RightBounded};
pub use interval::{
    lemma_construction_consistency, lemma_flip_complement_lower, lemma_flip_complement_upper,
    lemma_intersection_commutative, lemma_intersection_idempotent, lemma_span_commutative,
    lemma_span_idempotent, lemma_span_includes, lemma_span_minimal, lemma_union_partition,
    lemma_union_round_trip, lemma_validity, seq_max, seq_min, span_fold, valid_pair, Interval,
    IntervalDifference, IntervalSet, IntervalUnion,
};
pub use interval_box::BoxN;
pub use kd::Kd;
pub use ndim::{NDim, Xy, Xyz, Xyzw};
pub use nullable::Nullable;

use vstd::prelude::*;

verus! {

/// Error returned when a requested interval would be empty: its lower bound
/// does not admit its upper bound's value, or the other way round.
#[derive(Debug, Clone, Copy, PartialEq, Eq, Structural)]
pub struct IntervalIsEmpty;

impl IntervalIsEmpty {
    /// A human-readable description of the error.
    pub fn message(&self) -> &'static str {
        "left boundary must be less than or equal to right boundary"
    }
}

impl Inclusive {
    /// An inclusive bound at `t`.
    pub fn at(self, t: i64) -> (r: Bound)
        ensures
            r == (Bound { limit: t, bound_type: BoundType::Inclusive }),
    {
        Bound { limit: t, bound_type: BoundType::Inclusive }
    }

    /// The closed interval `[min(a, b), max(a, b)]`; total, a closed
    /// interval over an ordered pair is never empty.
    pub fn between(self, a: i64, b: i64) -> (r: Interval)
        ensures
            r.left == (LeftBounded {
                limit: if a < b {
                    a
                } else {
                    b
                },
                bound_type: BoundType::Inclusive,
            }),
            r.right == (RightBounded {
                limit: if a < b {
                    b
                } else {
                    a
                },
                bound_type: BoundType::Inclusive,
            }),
            r.wf(),
    {
        Interval::between(a, b)
    }

    /// The closed hull of a set of points: `[min(items), max(items)]`, or
    /// `None` on an empty sequence.
    pub fn hull(items: &Vec<i64>) -> (r: Option<Interval>)
        ensures
            r is Some <==> items.len() > 0,
            r matches Some(v) ==> v == (Interval {
                left: LeftBounded {
                    limit: interval::seq_min(items@) as i64,
                    bound_type: BoundType::Inclusive,
                },
                right: RightBounded {
                    limit: interval::seq_max(items@) as i64,
                    bound_type: BoundType::Inclusive,
                },
            }) && v.wf(),
    {
        proof {
            if items.len() > 0 {
                interval::lemma_seq_min_max(items@);
            }
        }
        Interval::hull_many(items, BoundType::Inclusive, BoundType::Inclusive)
    }
}

impl Exclusive {
    /// An exclusive bound at `t`.
    pub fn at(self, t: i64) -> (r: Bound)
        ensures
            r == (Bound { limit: t, bound_type: BoundType::Exclusive }),
    {
        Bound { limit: t, bound_type: BoundType::Exclusive }
    }

    /// The open interval over the ordered pair of `a` and `b`; `None` when
    /// `a == b`, since `(a, a)` is empty.
    pub fn try_between(self, a: i64, b: i64) -> (r: Option<Interval>)
        ensures
            r is Some <==> a != b,
            r matches Some(v) ==> v == (Interval {
                left: LeftBounded {
                    limit: if a < b {
                        a
                    } else {
                        b
                    },
                    bound_type: BoundType::Exclusive,
                },
                right: RightBounded {
                    limit: if a < b {
                        b
                    } else {
                        a
                    },
                    bound_type: BoundType::Exclusive,
                },
            }) && v.wf(),
    {
        Interval::try_between(a, b, BoundType::Exclusive, BoundType::Exclusive)
    }

    /// The open interval over the ordered pair of `a` and `b`, which must be
    /// distinct: `(a, a)` is empty and has no interval value.
    pub fn between(self, a: i64, b: i64) -> (r: Interval)
        requires
            a != b,
        ensures
            r.left == (LeftBounded {
                limit: if a < b {
                    a
                } else {
                    b
                },
                bound_type: BoundType::Exclusive,
            }),
            r.right == (RightBounded {
                limit: if a < b {
                    b
                } else {
                    a
                },
                bound_type: BoundType::Exclusive,
            }),
            r.wf(),
    {
        let (lo, hi) = if a < b {
            (a, b)
        } else {
            (b, a)
        };
        Interval {
            left: LeftBounded { limit: lo, bound_type: BoundType::Exclusive },
            right: RightBounded { limit: hi, bound_type: BoundType::Exclusive },
        }
    }

    /// The open hull of a set of points: `(min(items), max(items))`, or
    /// `None` when that region is empty.
    pub fn hull(items: &Vec<i64>) -> (r: Option<Interval>)
        ensures
            r is Some <==> items.len() > 0 && interval::seq_min(items@) < interval::seq_max(
                items@,
            ),
            r matches Some(v) ==> v == (Interval {
                left: LeftBounded {
                    limit: interval::seq_min(items@) as i64,
                    bound_type: BoundType::Exclusive,
                },
                right: RightBounded {
                    limit: interval::seq_max(items@) as i64,
                    bound_type: BoundType::Exclusive,
                },
            }) && v.wf(),
    {
        proof {
            if items.len() > 0 {
                interval::lemma_seq_min_max(items@);
            }
        }
        Interval::hull_many(items, BoundType::Exclusive, BoundType::Exclusive)
    }
}

impl BoundType {
    /// A bound of this kind at `t`.
    pub fn at(self, t: i64) -> (r: Bound)
        ensures
            r == (Bound { limit: t, bound_type: self }),
    {
        Bound { limit: t, bound_type: self }
    }

    /// The interval with this kind at both ends over the ordered pair of `a`
    /// and `b`; `None` when that region is empty.
    pub fn try_between(self, a: i64, b: i64) -> (r: Option<Interval>)
        ensures
            r == Interval::try_between_spec(a, b, self, self),
            r is Some ==> r->0.wf(),
    {
        Interval::try_between(a, b, self, self)
    }
}

impl Bound {
    /// The interval from `self` up to `r`; `Err(IntervalIsEmpty)` when the
    /// two bounds close an empty region.
    pub fn to(self, r: Bound) -> (res: Result<Interval, IntervalIsEmpty>)
        ensures
            ({
                let lb = LeftBounded { limit: self.limit, bound_type: self.bound_type };
                let rb = RightBounded { limit: r.limit, bound_type: r.bound_type };
                res == if valid_pair(lb, rb) {
                    Ok::<Interval, IntervalIsEmpty>(Interval { left: lb, right: rb })
                } else {
                    Err::<Interval, IntervalIsEmpty>(IntervalIsEmpty)
                }
            }),
            res is Ok ==> res->Ok_0.wf(),
    {
        Interval::new(self, r)
    }

    /// The interval from `self` up to `r`; `None` when the two bounds close
    /// an empty region.
    pub fn try_to(self, r: Bound) -> (res: Option<Interval>)
        ensures
            ({
                let lb = LeftBounded { limit: self.limit, bound_type: self.bound_type };
                let rb = RightBounded { limit: r.limit, bound_type: r.bound_type };
                res == if valid_pair(lb, rb) {
                    Some(Interval { left: lb, right: rb })
                } else {
                    None::<Interval>
                }
            }),
            res is Some ==> res->0.wf(),
    {
        Interval::try_new(self, r)
    }
}

} // verus!
