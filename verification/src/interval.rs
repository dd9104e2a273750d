//! Intervals: a pair of half-bounds with the invariant that the interval is
//! non-empty under its own inclusivity rules.
//!
//! Construction is the single validation gate. Every derived operation
//! (`intersection`, `gap`, `dilate`, ...) either preserves the invariant by
//! construction or returns an explicit `None` / error rather than a
//! degenerate interval.

use crate::bound::Bound;
use crate::bound_type::BoundType;
use crate::half::{LeftBounded, RightBounded};
use crate::IntervalIsEmpty;
use vstd::prelude::*;

verus! {

/// Interval like `[a, b]`, `(a, b)`, `[a, b)` or `(a, b]` over the integer
/// scalar line. The bounds are considered bounds of a region of the real
/// line: `(3, 4)` is a valid (non-empty) interval even though it admits no
/// integer point.
#[derive(Debug, Clone, Copy, PartialEq, Eq, Structural)]
pub struct Interval {
    pub left: LeftBounded,
    pub right: RightBounded,
}

/// A pair of bounds closes a non-empty region iff each bound admits the
/// other's value.
pub open spec fn valid_pair(left: LeftBounded, right: RightBounded) -> bool {
    left.admits(right.limit as int) && right.admits(left.limit as int)
}

/// Whether a pair of bounds closes a non-empty region.
pub fn is_valid_interval(left: &LeftBounded, right: &RightBounded) -> (r: bool)
    ensures
        r == valid_pair(*left, *right),
{
    left.contains(&right.limit) && right.contains(&left.limit)
}

impl Interval {
    /// The validity invariant: the interval is non-empty under its own
    /// inclusivity rules. Every constructor establishes it; every operation
    /// that returns an `Interval` preserves it.
    pub open spec fn wf(self) -> bool {
        valid_pair(self.left, self.right)
    }

    /// Whether the point `t` lies inside the interval.
    pub open spec fn contains_spec(self, t: int) -> bool {
        self.left.admits(t) && self.right.admits(t)
    }

    /// Superset test by bound values: `self` spans at least `other`.
    pub open spec fn includes_spec(self, other: Interval) -> bool {
        self.left.limit <= other.left.limit && other.right.limit <= self.right.limit
    }

    /// The smallest interval containing both operands: the looser lower
    /// bound with the looser upper bound. Always valid when the operands are.
    pub open spec fn span_spec(self, other: Interval) -> Interval {
        Interval {
            left: self.left.union_spec(other.left),
            right: self.right.union_spec(other.right),
        }
    }

    /// The common region of both operands, if it is non-empty: the tighter
    /// lower bound with the tighter upper bound, revalidated.
    pub open spec fn intersection_spec(self, other: Interval) -> Option<Interval> {
        let left = self.left.intersection_spec(other.left);
        let right = self.right.intersection_spec(other.right);
        if valid_pair(left, right) {
            Some(Interval { left, right })
        } else {
            None
        }
    }

    /// The region strictly between two disjoint intervals, built from the
    /// flipped facing bounds; `None` when the intervals overlap or touch.
    pub open spec fn gap_spec(self, other: Interval) -> Option<Interval> {
        let ab = Interval { left: self.right.flip_spec(), right: other.left.flip_spec() };
        let ba = Interval { left: other.right.flip_spec(), right: self.left.flip_spec() };
        if ab.wf() {
            Some(ab)
        } else if ba.wf() {
            Some(ba)
        } else {
            None
        }
    }

    /// Validating constructor from side-tagged half-bounds.
    fn new_(left: LeftBounded, right: RightBounded) -> (r: Option<Interval>)
        ensures
            r == if valid_pair(left, right) {
                Some(Interval { left, right })
            } else {
                None::<Interval>
            },
            r is Some ==> r->0.wf(),
    {
        if is_valid_interval(&left, &right) {
            Some(Interval { left, right })
        } else {
            None
        }
    }

    /// Create a new interval from a lower and an upper bound. Fails with
    /// [`IntervalIsEmpty`] exactly when the bounds close an empty region,
    /// e.g. `[3, 0)` or `[3, 3)`; `[3, 3]` is valid with one point.
    pub fn new(left: Bound, right: Bound) -> (r: Result<Interval, IntervalIsEmpty>)
        ensures
            ({
                let lb = LeftBounded { limit: left.limit, bound_type: left.bound_type };
                let rb = RightBounded { limit: right.limit, bound_type: right.bound_type };
                r == if valid_pair(lb, rb) {
                    Ok::<Interval, IntervalIsEmpty>(Interval { left: lb, right: rb })
                } else {
                    Err::<Interval, IntervalIsEmpty>(IntervalIsEmpty)
                }
            }),
            r is Ok ==> r->Ok_0.wf(),
    {
        match Self::new_(LeftBounded::from_bound(left), RightBounded::from_bound(right)) {
            Some(i) => Ok(i),
            None => Err(IntervalIsEmpty),
        }
    }

    /// Like [`Interval::new`], with `None` for the empty case.
    pub fn try_new(left: Bound, right: Bound) -> (r: Option<Interval>)
        ensures
            ({
                let lb = LeftBounded { limit: left.limit, bound_type: left.bound_type };
                let rb = RightBounded { limit: right.limit, bound_type: right.bound_type };
                r == if valid_pair(lb, rb) {
                    Some(Interval { left: lb, right: rb })
                } else {
                    None::<Interval>
                }
            }),
            r is Some ==> r->0.wf(),
    {
        Self::new_(LeftBounded::from_bound(left), RightBounded::from_bound(right))
    }

    /// The closed interval `[min(a, b), max(a, b)]`.
    pub open spec fn between_spec(a: i64, b: i64) -> Interval {
        Interval {
            left: LeftBounded {
                limit: if a < b {
                    a
                } else {
                    b
                },
                bound_type: BoundType::Inclusive,
            },
            right: RightBounded {
                limit: if a < b {
                    b
                } else {
                    a
                },
                bound_type: BoundType::Inclusive,
            },
        }
    }

    /// The closed interval `[min(a, b), max(a, b)]`; never empty, so this
    /// constructor is total.
    pub fn between(a: i64, b: i64) -> (r: Interval)
        ensures
            r == Self::between_spec(a, b),
            r.wf(),
    {
        let (lo, hi) = if a < b {
            (a, b)
        } else {
            (b, a)
        };
        Interval {
            left: LeftBounded { limit: lo, bound_type: BoundType::Inclusive },
            right: RightBounded { limit: hi, bound_type: BoundType::Inclusive },
        }
    }

    /// What ordering `a` and `b` and validating with the requested kinds
    /// yields.
    pub open spec fn try_between_spec(a: i64, b: i64, left: BoundType, right: BoundType) -> Option<
        Interval,
    > {
        let lo = if a < b {
            a
        } else {
            b
        };
        let hi = if a < b {
            b
        } else {
            a
        };
        let lb = LeftBounded { limit: lo, bound_type: left };
        let rb = RightBounded { limit: hi, bound_type: right };
        if valid_pair(lb, rb) {
            Some(Interval { left: lb, right: rb })
        } else {
            None
        }
    }

    /// Order `a` and `b` by value, then construct with the requested kinds;
    /// `None` when even the ordered pair closes an empty region (e.g. a
    /// doubly-exclusive `(a, a)`).
    pub fn try_between(a: i64, b: i64, left: BoundType, right: BoundType) -> (r: Option<Interval>)
        ensures
            r == Self::try_between_spec(a, b, left, right),
            r is Some ==> r->0.wf(),
    {
        let (lo, hi) = if a < b {
            (a, b)
        } else {
            (b, a)
        };
        Self::new_(
            LeftBounded { limit: lo, bound_type: left },
            RightBounded { limit: hi, bound_type: right },
        )
    }

    /// The lower half-bound.
    pub fn left(&self) -> (r: &LeftBounded)
        ensures
            r == self.left,
    {
        &self.left
    }

    /// The upper half-bound.
    pub fn right(&self) -> (r: &RightBounded)
        ensures
            r == self.right,
    {
        &self.right
    }

    /// The raw lower bound value, not adjusted for exclusivity.
    pub fn inf(&self) -> (r: i64)
        ensures
            r == self.left.limit,
    {
        self.left.inf()
    }

    /// The raw upper bound value, not adjusted for exclusivity.
    pub fn sup(&self) -> (r: i64)
        ensures
            r == self.right.limit,
    {
        self.right.sup()
    }

    /// The least integer the interval contains: the lower limit itself when
    /// inclusive, one more when exclusive.
    pub open spec fn min_val_spec(self) -> int {
        if self.left.bound_type is Inclusive {
            self.left.limit as int
        } else {
            self.left.limit + 1
        }
    }

    /// The greatest integer the interval contains: the upper limit itself
    /// when inclusive, one less when exclusive.
    pub open spec fn max_val_spec(self) -> int {
        if self.right.bound_type is Inclusive {
            self.right.limit as int
        } else {
            self.right.limit - 1
        }
    }

    /// The length of the interval: `sup - inf`.
    pub open spec fn measure_spec(self) -> int {
        self.right.limit - self.left.limit
    }

    /// The midpoint, rounded toward the lower bound.
    pub open spec fn center_spec(self) -> int {
        self.left.limit + (self.right.limit - self.left.limit) / 2
    }

    /// The least integer the interval contains: the lower limit itself when
    /// inclusive, one more when exclusive.
    pub fn min_val(&self) -> (r: i64)
        requires
            self.wf(),
        ensures
            r as int == self.min_val_spec(),
    {
        if self.left.bound_type.is_inclusive() {
            self.left.limit
        } else {
            self.left.limit + 1
        }
    }

    /// The greatest integer the interval contains: the upper limit itself
    /// when inclusive, one less when exclusive.
    pub fn max_val(&self) -> (r: i64)
        requires
            self.wf(),
        ensures
            r as int == self.max_val_spec(),
    {
        if self.right.bound_type.is_inclusive() {
            self.right.limit
        } else {
            self.right.limit - 1
        }
    }

    /// Whether the point `t` lies inside the interval.
    pub fn contains(&self, t: &i64) -> (r: bool)
        ensures
            r == self.contains_spec(*t as int),
    {
        self.left.contains(t) && self.right.contains(t)
    }

    /// Superset test: does `self` span at least `other`?
    pub fn includes(&self, other: &Interval) -> (r: bool)
        ensures
            r == self.includes_spec(*other),
    {
        self.left.includes(&other.left) && self.right.includes(&other.right)
    }

    /// The common region of both intervals; `None` exactly when they share
    /// no region, and then they share no integer point either.
    pub fn intersection(&self, other: &Interval) -> (r: Option<Interval>)
        ensures
            r == self.intersection_spec(*other),
            r is Some ==> r->0.wf(),
            r matches Some(i) ==> forall|t: int|
                #[trigger] i.contains_spec(t) <==> self.contains_spec(t) && other.contains_spec(t),
            r is None ==> forall|t: int|
                !(#[trigger] self.contains_spec(t) && other.contains_spec(t)),
    {
        let left = self.left.intersection(&other.left);
        let right = self.right.intersection(&other.right);
        let r = Self::new_(left, right);
        proof {
            if r is None {
                assert forall|t: int| !(#[trigger] self.contains_spec(t)
                    && other.contains_spec(t)) by {
                    if self.contains_spec(t) && other.contains_spec(t) {
                        assert(left.admits(t) && right.admits(t));
                        assert(left.admits(right.limit as int) && right.admits(left.limit as int));
                    }
                }
            }
        }
        r
    }

    /// Whether the two intervals share a region.
    pub fn overlaps(&self, other: &Interval) -> (r: bool)
        ensures
            r == (self.intersection_spec(*other) is Some),
    {
        let left = self.left.intersection(&other.left);
        let right = self.right.intersection(&other.right);
        is_valid_interval(&left, &right)
    }

    /// The smallest interval containing both operands (their hull). Never
    /// empty: widening two valid intervals cannot close an empty region.
    pub fn span(&self, other: &Interval) -> (r: Interval)
        requires
            self.wf(),
            other.wf(),
        ensures
            r.left == self.left.union_spec(other.left),
            r.right == self.right.union_spec(other.right),
            r.wf(),
            forall|t: int|
                self.contains_spec(t) || other.contains_spec(t) ==> #[trigger] r.contains_spec(t),
    {
        Interval { left: self.left.union(&other.left), right: self.right.union(&other.right) }
    }

    /// The region strictly between `self` and `other` when they are
    /// disjoint, with swapped, flipped boundary kinds; `None` when they
    /// overlap or touch with no room between them.
    pub fn gap(&self, other: &Interval) -> (r: Option<Interval>)
        ensures
            r == self.gap_spec(*other),
            r is Some ==> r->0.wf(),
    {
        match Self::new_(self.right.flip(), other.left.flip()) {
            Some(g) => Some(g),
            None => Self::new_(other.right.flip(), self.left.flip()),
        }
    }

    /// The span of both intervals together with the gap between them, if
    /// any: the gap is exactly the information lost by widening to the span.
    pub fn union(&self, other: &Interval) -> (r: IntervalUnion)
        requires
            self.wf(),
            other.wf(),
        ensures
            r.span == self.span_spec(*other),
            r.gap == self.gap_spec(*other),
            r.span.wf(),
    {
        IntervalUnion { gap: self.gap(other), span: self.span(other) }
    }

    /// Like [`Interval::union`], as a plain pair of span and optional gap.
    pub fn union_strict(&self, other: &Interval) -> (r: (Interval, Option<Interval>))
        requires
            self.wf(),
            other.wf(),
        ensures
            r.0 == self.span_spec(*other),
            r.1 == self.gap_spec(*other),
            r.0.wf(),
    {
        let gap = self.gap(other);
        (self.span(other), gap)
    }

    /// The smallest single interval containing both operands; the widening
    /// half of [`Interval::union`].
    pub fn union_interval(&self, other: &Interval) -> (r: Interval)
        requires
            self.wf(),
            other.wf(),
        ensures
            r == self.span_spec(*other),
            r.wf(),
    {
        self.span(other)
    }

    /// Widen the interval so that its bounds take the point `t` in, keeping
    /// both kinds.
    pub fn hull(self, t: i64) -> (r: Interval)
        requires
            self.wf(),
        ensures
            r.left == self.left.hull_spec(t),
            r.right == self.right.hull_spec(t),
            r.wf(),
    {
        Interval { left: self.left.hull(t), right: self.right.hull(t) }
    }

    /// The lower bound seen from outside: the complementary upper bound
    /// covering everything below the interval.
    pub fn lower_bound(&self) -> (r: RightBounded)
        ensures
            r == self.left.flip_spec(),
    {
        self.left.flip()
    }

    /// The upper bound seen from outside: the complementary lower bound
    /// covering everything above the interval.
    pub fn upper_bound(&self) -> (r: LeftBounded)
        ensures
            r == self.right.flip_spec(),
    {
        self.right.flip()
    }

    /// The length of the interval: `sup - inf`, regardless of inclusivity.
    pub fn measure(&self) -> (r: i64)
        requires
            self.wf(),
            self.right.limit - self.left.limit <= i64::MAX,
        ensures
            r == self.measure_spec(),
    {
        proof {
            lemma_wf_limits(*self);
        }
        self.right.limit - self.left.limit
    }

    /// The midpoint `inf + (sup - inf) / 2`, rounded toward the lower bound.
    pub fn center(&self) -> (r: i64)
        requires
            self.wf(),
            self.right.limit - self.left.limit <= i64::MAX,
        ensures
            r as int == self.center_spec(),
    {
        proof {
            lemma_wf_limits(*self);
        }
        self.left.limit + (self.right.limit - self.left.limit) / 2
    }

    /// The topological closure: both kinds forced to `Inclusive`.
    pub fn closure(self) -> (r: Interval)
        requires
            self.wf(),
        ensures
            r.left.limit == self.left.limit,
            r.right.limit == self.right.limit,
            r.left.bound_type == BoundType::Inclusive,
            r.right.bound_type == BoundType::Inclusive,
            r.wf(),
    {
        proof {
            lemma_wf_limits(self);
        }
        Interval { left: self.left.closure(), right: self.right.closure() }
    }

    /// The topological interior: both kinds forced to `Exclusive`,
    /// revalidated; `None` when the open version is empty (a single point).
    pub fn interior(self) -> (r: Option<Interval>)
        ensures
            ({
                let lb = LeftBounded { limit: self.left.limit, bound_type: BoundType::Exclusive };
                let rb = RightBounded { limit: self.right.limit, bound_type: BoundType::Exclusive };
                r == if valid_pair(lb, rb) {
                    Some(Interval { left: lb, right: rb })
                } else {
                    None::<Interval>
                }
            }),
            r is Some ==> r->0.wf(),
    {
        Self::new_(self.left.interior(), self.right.interior())
    }

    /// Grow the interval outward by `delta` on each side (shrink it when
    /// `delta` is negative). Fails with [`IntervalIsEmpty`] when the shrink
    /// crosses the bounds.
    pub fn dilate(self, delta: i64) -> (r: Result<Interval, IntervalIsEmpty>)
        requires
            i64::MIN <= self.left.limit - delta <= i64::MAX,
            i64::MIN <= self.right.limit + delta <= i64::MAX,
        ensures
            ({
                let lb = LeftBounded {
                    limit: (self.left.limit - delta) as i64,
                    bound_type: self.left.bound_type,
                };
                let rb = RightBounded {
                    limit: (self.right.limit + delta) as i64,
                    bound_type: self.right.bound_type,
                };
                r == if valid_pair(lb, rb) {
                    Ok::<Interval, IntervalIsEmpty>(Interval { left: lb, right: rb })
                } else {
                    Err::<Interval, IntervalIsEmpty>(IntervalIsEmpty)
                }
            }),
            r is Ok ==> r->Ok_0.wf(),
    {
        match Self::new_(self.left.dilate(delta), self.right.dilate(delta)) {
            Some(i) => Ok(i),
            None => Err(IntervalIsEmpty),
        }
    }

    /// The parts of `self` not covered by `other`: the region of `self`
    /// below `other` and the region of `self` above it, each validated on
    /// its own.
    pub fn difference(&self, other: &Interval) -> (r: IntervalDifference)
        ensures
            ({
                let low_right = other.left.flip_spec();
                let up_left = other.right.flip_spec();
                r.lower == if valid_pair(self.left, low_right) {
                    Some(Interval { left: self.left, right: low_right })
                } else {
                    None::<Interval>
                } && r.upper == if valid_pair(up_left, self.right) {
                    Some(Interval { left: up_left, right: self.right })
                } else {
                    None::<Interval>
                }
            }),
            r.lower is Some ==> r.lower->0.wf(),
            r.upper is Some ==> r.upper->0.wf(),
    {
        IntervalDifference {
            lower: Self::new_(self.left, other.left.flip()),
            upper: Self::new_(other.right.flip(), self.right),
        }
    }

    /// Cut the interval at `t` into the part below `t` (exclusive above)
    /// and the part from `t` up (inclusive below). A piece outside `self`
    /// comes back `None`; a cut outside the interval returns `self` whole
    /// on the side it falls short of.
    pub fn try_split_at(&self, t: i64) -> (r: (Option<Interval>, Option<Interval>))
        ensures
            !self.left.admits(t as int) ==> r == (None::<Interval>, Some(*self)),
            self.left.admits(t as int) && !self.right.admits(t as int) ==> r == (
                Some(*self),
                None::<Interval>,
            ),
            self.left.admits(t as int) && self.right.admits(t as int) ==> ({
                let cut_up = RightBounded { limit: t, bound_type: BoundType::Exclusive };
                let cut_lo = LeftBounded { limit: t, bound_type: BoundType::Inclusive };
                r.0 == if valid_pair(self.left, cut_up) {
                    Some(Interval { left: self.left, right: cut_up })
                } else {
                    None::<Interval>
                } && r.1 == if valid_pair(cut_lo, self.right) {
                    Some(Interval { left: cut_lo, right: self.right })
                } else {
                    None::<Interval>
                }
            }),
    {
        if !self.left.contains(&t) {
            return (None, Some(*self));
        }
        if !self.right.contains(&t) {
            return (Some(*self), None);
        }
        let lower = Self::new_(
            self.left,
            RightBounded { limit: t, bound_type: BoundType::Exclusive },
        );
        let upper = Self::new_(
            LeftBounded { limit: t, bound_type: BoundType::Inclusive },
            self.right,
        );
        (lower, upper)
    }

    /// Cut the interval at an interior point `t`, yielding both non-empty
    /// pieces: `[.., t)` and `[t, ..)`.
    pub fn split_at(&self, t: i64) -> (r: (Interval, Interval))
        requires
            self.wf(),
            self.contains_spec(t as int),
            self.left.limit < t,
        ensures
            r.0 == (Interval {
                left: self.left,
                right: RightBounded { limit: t, bound_type: BoundType::Exclusive },
            }),
            r.1 == (Interval {
                left: LeftBounded { limit: t, bound_type: BoundType::Inclusive },
                right: self.right,
            }),
            r.0.wf(),
            r.1.wf(),
    {
        let lower = Interval {
            left: self.left,
            right: RightBounded { limit: t, bound_type: BoundType::Exclusive },
        };
        let upper = Interval {
            left: LeftBounded { limit: t, bound_type: BoundType::Inclusive },
            right: self.right,
        };
        (lower, upper)
    }

    /// The values of the interval from its lower end upward in steps of
    /// `step`: every sample lies inside the interval, and the next sample
    /// past the end would not.
    pub fn step_by(&self, step: i64) -> (r: Vec<i64>)
        requires
            self.wf(),
            step >= 1,
        ensures
            forall|j: int|
                0 <= j < r.len() ==> #[trigger] r[j] == self.left.step_origin(step as int) + j
                    * step,
            forall|j: int| 0 <= j < r.len() ==> self.contains_spec(#[trigger] r[j] as int),
            !self.right.admits(self.left.step_origin(step as int) + r.len() * step),
    {
        let mut r: Vec<i64> = Vec::new();
        let ghost first: int = self.left.step_origin(step as int);
        let mut t: i128 = if self.left.bound_type.is_inclusive() {
            self.left.limit as i128
        } else {
            self.left.limit as i128 + step as i128
        };
        proof {
            assert(r.len() * step == 0) by (nonlinear_arith)
                requires
                    r.len() == 0,
            ;
        }
        loop
            invariant
                self.wf(),
                step >= 1,
                first == self.left.step_origin(step as int),
                i64::MIN <= first,
                first <= t as int <= i64::MAX + step,
                t as int == first + r.len() * step,
                forall|j: int| 0 <= j < r.len() ==> #[trigger] r[j] == first + j * step,
                forall|j: int| 0 <= j < r.len() ==> self.contains_spec(#[trigger] r[j] as int),
            ensures
                t as int == first + r.len() * step,
                !self.right.admits(t as int),
                forall|j: int| 0 <= j < r.len() ==> #[trigger] r[j] == first + j * step,
                forall|j: int| 0 <= j < r.len() ==> self.contains_spec(#[trigger] r[j] as int),
            decreases (if t as int > self.right.limit as int {
                0int
            } else {
                self.right.limit as int + 1 - t as int
            }),
        {
            let admitted = if self.right.bound_type.is_inclusive() {
                t <= self.right.limit as i128
            } else {
                t < self.right.limit as i128
            };
            if !admitted {
                break;
            }
            let v: i64 = t as i64;
            proof {
                assert(self.left.admits(v as int));
                assert((r.len() + 1) * step == r.len() * step + step) by (nonlinear_arith);
            }
            r.push(v);
            t = t + step as i128;
        }
        r
    }

    /// The values of the interval from its upper end downward in steps of
    /// `step`: every sample lies inside the interval, and the next sample
    /// past the lower end would not.
    pub fn step_rev_by(&self, step: i64) -> (r: Vec<i64>)
        requires
            self.wf(),
            step >= 1,
        ensures
            forall|j: int|
                0 <= j < r.len() ==> #[trigger] r[j] == self.right.step_origin(step as int) - j
                    * step,
            forall|j: int| 0 <= j < r.len() ==> self.contains_spec(#[trigger] r[j] as int),
            !self.left.admits(self.right.step_origin(step as int) - r.len() * step),
    {
        let mut r: Vec<i64> = Vec::new();
        let ghost first: int = self.right.step_origin(step as int);
        let mut t: i128 = if self.right.bound_type.is_inclusive() {
            self.right.limit as i128
        } else {
            self.right.limit as i128 - step as i128
        };
        proof {
            assert(r.len() * step == 0) by (nonlinear_arith)
                requires
                    r.len() == 0,
            ;
        }
        loop
            invariant
                self.wf(),
                step >= 1,
                first == self.right.step_origin(step as int),
                first <= i64::MAX,
                i64::MIN - step <= t as int <= first,
                t as int == first - r.len() * step,
                forall|j: int| 0 <= j < r.len() ==> #[trigger] r[j] == first - j * step,
                forall|j: int| 0 <= j < r.len() ==> self.contains_spec(#[trigger] r[j] as int),
            ensures
                t as int == first - r.len() * step,
                !self.left.admits(t as int),
                forall|j: int| 0 <= j < r.len() ==> #[trigger] r[j] == first - j * step,
                forall|j: int| 0 <= j < r.len() ==> self.contains_spec(#[trigger] r[j] as int),
            decreases (if (t as int) < self.left.limit as int {
                0int
            } else {
                t as int + 1 - self.left.limit as int
            }),
        {
            let admitted = if self.left.bound_type.is_inclusive() {
                self.left.limit as i128 <= t
            } else {
                (self.left.limit as i128) < t
            };
            if !admitted {
                break;
            }
            let v: i64 = t as i64;
            proof {
                assert(self.right.admits(v as int));
                assert((r.len() + 1) * step == r.len() * step + step) by (nonlinear_arith);
            }
            r.push(v);
            t = t - step as i128;
        }
        r
    }

    /// Fold of [`Interval::span`] over a sequence of intervals: the smallest
    /// interval containing them all, or `None` for an empty sequence.
    pub fn span_many(items: &Vec<Interval>) -> (r: Option<Interval>)
        requires
            forall|i: int| 0 <= i < items.len() ==> (#[trigger] items[i]).wf(),
        ensures
            r is Some <==> items.len() > 0,
            r matches Some(v) ==> v == span_fold(items@) && v.wf(),
    {
        if items.len() == 0 {
            return None;
        }
        let mut acc = items[0];
        let mut i: usize = 1;
        proof {
            assert(items@.take(1) =~= seq![items@[0]]);
        }
        while i < items.len()
            invariant
                1 <= i <= items.len(),
                forall|k: int| 0 <= k < items.len() ==> (#[trigger] items[k]).wf(),
                acc == span_fold(items@.take(i as int)),
                acc.wf(),
            decreases items.len() - i,
        {
            acc = acc.span(&items[i]);
            proof {
                assert(items@.take(i + 1).drop_last() =~= items@.take(i as int));
                assert(items@.take(i + 1).last() == items@[i as int]);
            }
            i = i + 1;
        }
        proof {
            assert(items@.take(items.len() as int) =~= items@);
        }
        Some(acc)
    }

    /// Synonym fold of [`Interval::span`] over intervals: the smallest
    /// interval enclosing every operand, `None` on an empty sequence.
    pub fn enclose(items: &Vec<Interval>) -> (r: Option<Interval>)
        requires
            forall|i: int| 0 <= i < items.len() ==> (#[trigger] items[i]).wf(),
        ensures
            r is Some <==> items.len() > 0,
            r matches Some(v) ==> v == span_fold(items@) && v.wf(),
    {
        Self::span_many(items)
    }

    /// The hull of a set of points: an interval with the requested kinds
    /// whose limits are the least and greatest of the points. `None` on an
    /// empty sequence, or when the kinds close an empty region over those
    /// limits (e.g. exclusive bounds over a single repeated point).
    pub fn hull_many(items: &Vec<i64>, left: BoundType, right: BoundType) -> (r: Option<Interval>)
        ensures
            items.len() == 0 ==> r is None,
            items.len() > 0 ==> ({
                let lb = LeftBounded { limit: seq_min(items@) as i64, bound_type: left };
                let rb = RightBounded { limit: seq_max(items@) as i64, bound_type: right };
                r == if valid_pair(lb, rb) {
                    Some(Interval { left: lb, right: rb })
                } else {
                    None::<Interval>
                }
            }),
            r is Some ==> r->0.wf(),
    {
        if items.len() == 0 {
            return None;
        }
        let mut lo = items[0];
        let mut hi = items[0];
        let mut i: usize = 1;
        proof {
            assert(items@.take(1) =~= seq![items@[0]]);
        }
        while i < items.len()
            invariant
                1 <= i <= items.len(),
                lo as int == seq_min(items@.take(i as int)),
                hi as int == seq_max(items@.take(i as int)),
                lo <= hi,
            decreases items.len() - i,
        {
            let x = items[i];
            proof {
                assert(items@.take(i + 1).drop_last() =~= items@.take(i as int));
                assert(items@.take(i + 1).last() == items@[i as int]);
            }
            if x < lo {
                lo = x;
            } else if hi < x {
                hi = x;
            }
            i = i + 1;
        }
        proof {
            assert(items@.take(items.len() as int) =~= items@);
        }
        Self::new_(
            LeftBounded { limit: lo, bound_type: left },
            RightBounded { limit: hi, bound_type: right },
        )
    }
}

/// In a valid interval the lower limit never exceeds the upper limit.
pub proof fn lemma_wf_limits(iv: Interval)
    requires
        iv.wf(),
    ensures
        iv.left.limit <= iv.right.limit,
{
}

/// Fold of [`Interval::span_spec`] over a sequence, front to back.
pub open spec fn span_fold(s: Seq<Interval>) -> Interval
    recommends
        s.len() > 0,
    decreases s.len(),
{
    if s.len() <= 1 {
        s[0]
    } else {
        span_fold(s.drop_last()).span_spec(s.last())
    }
}

/// The least value of a non-empty sequence.
pub open spec fn seq_min(s: Seq<i64>) -> int
    recommends
        s.len() > 0,
    decreases s.len(),
{
    if s.len() <= 1 {
        s[0] as int
    } else {
        let m = seq_min(s.drop_last());
        if (s.last() as int) < m {
            s.last() as int
        } else {
            m
        }
    }
}

/// The greatest value of a non-empty sequence.
pub open spec fn seq_max(s: Seq<i64>) -> int
    recommends
        s.len() > 0,
    decreases s.len(),
{
    if s.len() <= 1 {
        s[0] as int
    } else {
        let m = seq_max(s.drop_last());
        if m < s.last() as int {
            s.last() as int
        } else {
            m
        }
    }
}

/// The least and greatest values of a non-empty sequence are values of the
/// sequence's element type, and ordered.
pub proof fn lemma_seq_min_max(s: Seq<i64>)
    requires
        s.len() > 0,
    ensures
        i64::MIN <= seq_min(s) <= i64::MAX,
        i64::MIN <= seq_max(s) <= i64::MAX,
        seq_min(s) <= seq_max(s),
    decreases s.len(),
{
    if s.len() > 1 {
        lemma_seq_min_max(s.drop_last());
    }
}

/// Result of [`Interval::union`]: the span of the two operands, and the gap
/// between them when they are disjoint.
#[derive(Debug, Clone, Copy, PartialEq, Eq, Structural)]
pub struct IntervalUnion {
    pub span: Interval,
    pub gap: Option<Interval>,
}

impl IntervalUnion {
    /// The parts of the union: the span cut back at the gap's own flipped
    /// bounds when a gap exists, the whole span otherwise.
    pub fn into_vec(self) -> (r: Vec<Interval>)
        ensures
            self.gap matches Some(g) ==> r@ =~= seq![
                Interval { left: self.span.left, right: g.left.flip_spec() },
                Interval { left: g.right.flip_spec(), right: self.span.right },
            ],
            self.gap is None ==> r@ =~= seq![self.span],
    {
        let mut r: Vec<Interval> = Vec::new();
        match self.gap {
            Some(g) => {
                r.push(Interval { left: self.span.left, right: g.left.flip() });
                r.push(Interval { left: g.right.flip(), right: self.span.right });
            },
            None => {
                r.push(self.span);
            },
        }
        r
    }
}

/// Result of [`Interval::difference`]: the remainder of the receiver below
/// and above the subtracted interval.
#[derive(Debug, Clone, Copy, PartialEq, Eq, Structural)]
pub struct IntervalDifference {
    pub lower: Option<Interval>,
    pub upper: Option<Interval>,
}

impl IntervalDifference {
    /// The non-empty remainders, lower one first.
    pub fn into_vec(self) -> (r: Vec<Interval>)
        ensures
            ({
                match (self.lower, self.upper) {
                    (Some(a), Some(b)) => r@ =~= seq![a, b],
                    (Some(a), None) => r@ =~= seq![a],
                    (None, Some(b)) => r@ =~= seq![b],
                    (None, None) => r@ =~= Seq::<Interval>::empty(),
                }
            }),
    {
        let mut r: Vec<Interval> = Vec::new();
        if let Some(a) = self.lower {
            r.push(a);
        }
        if let Some(b) = self.upper {
            r.push(b);
        }
        r
    }
}

/// A sequence of intervals; the carrier for set-of-intervals extensions.
pub struct IntervalSet(pub Vec<Interval>);

/// Validity invariant: a well-formed interval's lower bound admits the upper
/// bound's value and the upper bound admits the lower bound's value. Every
/// constructor of this crate establishes `wf`, and every operation returning
/// an `Interval` preserves it.
pub proof fn lemma_validity(iv: Interval)
    requires
        iv.wf(),
    ensures
        iv.left.admits(iv.right.limit as int),
        iv.right.admits(iv.left.limit as int),
{
}

/// Containment/construction consistency: a pair of bounds passes validation
/// exactly when the region between them is non-empty over the real line —
/// witnessed here on the half-integer grid, i.e. with both limits doubled —
/// and an interval built from the pair contains exactly the points admitted
/// by both bounds.
pub proof fn lemma_construction_consistency(left: LeftBounded, right: RightBounded)
    ensures
        valid_pair(left, right) <==> exists|t: int|
            #[trigger] left.bound_type.le_by(2 * left.limit, t) && right.bound_type.le_by(
                t,
                2 * right.limit,
            ),
        forall|t: int|
            (Interval { left, right }).contains_spec(t) <==> left.admits(t) && right.admits(t),
{
    if valid_pair(left, right) {
        let w = left.limit + right.limit;
        assert(left.bound_type.le_by(2 * left.limit, w) && right.bound_type.le_by(
            w,
            2 * right.limit,
        ));
    }
    if exists|t: int|
        #[trigger] left.bound_type.le_by(2 * left.limit, t) && right.bound_type.le_by(
            t,
            2 * right.limit,
        ) {
        let t = choose|t: int|
            #[trigger] left.bound_type.le_by(2 * left.limit, t) && right.bound_type.le_by(
                t,
                2 * right.limit,
            );
        assert(valid_pair(left, right));
    }
}

/// Intersection is idempotent: a valid interval meets itself in itself.
pub proof fn lemma_intersection_idempotent(a: Interval)
    requires
        a.wf(),
    ensures
        a.intersection_spec(a) == Some(a),
{
}

/// Intersection is commutative.
pub proof fn lemma_intersection_commutative(a: Interval, b: Interval)
    ensures
        a.intersection_spec(b) == b.intersection_spec(a),
{
}

/// Span is idempotent: the hull of an interval with itself is itself.
pub proof fn lemma_span_idempotent(a: Interval)
    ensures
        a.span_spec(a) == a,
{
}

/// Span is commutative.
pub proof fn lemma_span_commutative(a: Interval, b: Interval)
    ensures
        a.span_spec(b) == b.span_spec(a),
{
}

/// The span is the smallest interval containing both operands: whatever
/// includes the two operands includes their span.
pub proof fn lemma_span_minimal(a: Interval, b: Interval, c: Interval)
    ensures
        c.includes_spec(a) && c.includes_spec(b) ==> c.includes_spec(a.span_spec(b)),
{
}

/// An interval includes its span with another interval only when it already
/// includes that other interval.
pub proof fn lemma_span_includes(a: Interval, b: Interval)
    requires
        a.wf(),
        b.wf(),
    ensures
        a.includes_spec(a.span_spec(b)) <==> a.includes_spec(b),
{
}

/// A lower bound and its flip split the scalar line exactly in two: every
/// point is admitted by precisely one of them.
pub proof fn lemma_flip_complement_lower(b: LeftBounded)
    ensures
        forall|t: int| #[trigger] b.admits(t) <==> !b.flip_spec().admits(t),
{
}

/// An upper bound and its flip split the scalar line exactly in two: every
/// point is admitted by precisely one of them.
pub proof fn lemma_flip_complement_upper(b: RightBounded)
    ensures
        forall|t: int| #[trigger] b.admits(t) <==> !b.flip_spec().admits(t),
{
}

/// The gap is exactly the information lost by widening to the span: when two
/// intervals leave a gap, every point of their span lies in one of the two
/// operands or in the gap, and in nothing else outside the span.
pub proof fn lemma_union_partition(a: Interval, b: Interval)
    requires
        a.wf(),
        b.wf(),
        a.gap_spec(b) is Some,
    ensures
        forall|t: int|
            (#[trigger] a.span_spec(b).contains_spec(t)) <==> a.contains_spec(t)
                || b.contains_spec(t) || a.gap_spec(b)->0.contains_spec(t),
{
    lemma_union_round_trip(a, b);
    let g = a.gap_spec(b)->0;
    let s = a.span_spec(b);
    lemma_flip_complement_lower(g.left);
    lemma_flip_complement_upper(g.right);
    assert forall|t: int| (#[trigger] s.contains_spec(t)) implies a.contains_spec(t)
        || b.contains_spec(t) || g.contains_spec(t) by {
        let first = Interval { left: s.left, right: g.left.flip_spec() };
        let second = Interval { left: g.right.flip_spec(), right: s.right };
        if !first.contains_spec(t) && !second.contains_spec(t) {
            assert(g.contains_spec(t));
        }
    }
}

/// Union round-trip: when two intervals leave a gap, cutting their span at
/// the gap's flipped bounds reconstructs exactly the two operands.
pub proof fn lemma_union_round_trip(a: Interval, b: Interval)
    requires
        a.wf(),
        b.wf(),
        a.gap_spec(b) is Some,
    ensures
        ({
            let g = a.gap_spec(b)->0;
            let s = a.span_spec(b);
            let first = Interval { left: s.left, right: g.left.flip_spec() };
            let second = Interval { left: g.right.flip_spec(), right: s.right };
            (first == a && second == b) || (first == b && second == a)
        }),
{
    let ab = Interval { left: a.right.flip_spec(), right: b.left.flip_spec() };
    let ba = Interval { left: b.right.flip_spec(), right: a.left.flip_spec() };
    if ab.wf() {
        assert(a.left.le_spec(b.left));
        assert(a.right.le_spec(b.right));
    } else {
        assert(ba.wf());
        assert(b.left.le_spec(a.left));
        assert(b.right.le_spec(a.right));
    }
}

} // verus!
