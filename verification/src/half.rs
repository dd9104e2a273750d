//! Half-bounds: a bound tagged with the side of the interval it closes.
//!
//! A [`LeftBounded`] admits everything at or above its limit (depending on
//! kind); a [`RightBounded`] admits everything at or below. Each side carries
//! its own total order on bounds, and the two orders break ties at equal
//! limits in opposite ways: among lower bounds the inclusive one is the
//! looser and sorts first, among upper bounds the exclusive one is the
//! tighter and sorts first. That asymmetry is what makes "max of lowers" and
//! "min of uppers" compute intersections correctly.

use crate::bound::Bound;
use crate::bound_type::BoundType;
use std::cmp::Ordering;
use vstd::prelude::*;

verus! {

/// A lower (left) bound: admits values on its upper side.
#[derive(Debug, Clone, Copy, PartialEq, Eq, Structural)]
pub struct LeftBounded {
    pub limit: i64,
    pub bound_type: BoundType,
}

/// An upper (right) bound: admits values on its lower side.
#[derive(Debug, Clone, Copy, PartialEq, Eq, Structural)]
pub struct RightBounded {
    pub limit: i64,
    pub bound_type: BoundType,
}

impl LeftBounded {
    /// Whether this lower bound admits the point `t`.
    pub open spec fn admits(self, t: int) -> bool {
        self.bound_type.le_by(self.limit as int, t)
    }

    /// Ascending order of lower bounds: the looser bound (the one admitting
    /// more points) comes first. At equal limits, `Inclusive` sorts before
    /// `Exclusive`.
    pub open spec fn le_spec(self, other: LeftBounded) -> bool {
        self.limit < other.limit || (self.limit == other.limit && (self.bound_type
            is Inclusive || other.bound_type is Exclusive))
    }

    /// The tighter of two lower bounds under the lower order.
    pub open spec fn intersection_spec(self, other: LeftBounded) -> LeftBounded {
        if self.le_spec(other) {
            other
        } else {
            self
        }
    }

    /// The looser of two lower bounds under the lower order.
    pub open spec fn union_spec(self, other: LeftBounded) -> LeftBounded {
        if self.le_spec(other) {
            self
        } else {
            other
        }
    }

    /// Build a lower bound from a side-less bound.
    pub fn from_bound(b: Bound) -> (r: LeftBounded)
        ensures
            r.limit == b.limit,
            r.bound_type == b.bound_type,
    {
        LeftBounded { limit: b.limit, bound_type: b.bound_type }
    }

    /// Is `self` at least as permissive as `other`? Value comparison alone
    /// is the rule here; kind only matters for the full ordering.
    pub fn includes(&self, other: &Self) -> (r: bool)
        ensures
            r == (self.limit <= other.limit),
    {
        self.limit <= other.limit
    }

    /// Whether the point `t` lies on the admitted side of this bound.
    pub fn contains(&self, t: &i64) -> (r: bool)
        ensures
            r == self.admits(*t as int),
    {
        self.bound_type.less(&self.limit, t)
    }

    /// The tighter of the two bounds: exactly the points admitted by both.
    pub fn intersection(&self, other: &Self) -> (r: Self)
        ensures
            r == self.intersection_spec(*other),
            forall|t: int| r.admits(t) <==> self.admits(t) && other.admits(t),
    {
        proof {
            lemma_lower_order(*self, *other);
        }
        if self.le_exec(other) {
            *other
        } else {
            *self
        }
    }

    /// The looser of the two bounds: exactly the points admitted by either.
    pub fn union(&self, other: &Self) -> (r: Self)
        ensures
            r == self.union_spec(*other),
            forall|t: int| r.admits(t) <==> self.admits(t) || other.admits(t),
    {
        proof {
            lemma_lower_order(*self, *other);
        }
        if self.le_exec(other) {
            *self
        } else {
            *other
        }
    }

    /// The bound widened to take the point `t` in: the limit drops to
    /// `min(limit, t)`, the kind is kept.
    pub open spec fn hull_spec(self, t: i64) -> LeftBounded {
        LeftBounded {
            limit: if t < self.limit {
                t
            } else {
                self.limit
            },
            bound_type: self.bound_type,
        }
    }

    /// Widen the bound to take the point `t` in: the limit drops to
    /// `min(limit, t)`, the kind is kept.
    pub fn hull(self, t: i64) -> (r: Self)
        ensures
            r == self.hull_spec(t),
    {
        LeftBounded { limit: partial_min(self.limit, t), bound_type: self.bound_type }
    }

    /// Shift the bound outward (downward) by `delta`.
    pub fn dilate(self, delta: i64) -> (r: Self)
        requires
            i64::MIN <= self.limit - delta <= i64::MAX,
        ensures
            r.limit == self.limit - delta,
            r.bound_type == self.bound_type,
    {
        LeftBounded { limit: self.limit - delta, bound_type: self.bound_type }
    }

    /// The raw limit value, not adjusted for exclusivity.
    pub fn inf(&self) -> (r: i64)
        ensures
            r == self.limit,
    {
        self.limit
    }

    /// Force the kind to `Inclusive`, keeping the value.
    pub fn closure(self) -> (r: Self)
        ensures
            r.limit == self.limit,
            r.bound_type == BoundType::Inclusive,
    {
        LeftBounded { limit: self.limit, bound_type: BoundType::Inclusive }
    }

    /// Force the kind to `Exclusive`, keeping the value.
    pub fn interior(self) -> (r: Self)
        ensures
            r.limit == self.limit,
            r.bound_type == BoundType::Exclusive,
    {
        LeftBounded { limit: self.limit, bound_type: BoundType::Exclusive }
    }

    /// The complementary upper bound of the same value: opposite kind,
    /// opposite side.
    pub open spec fn flip_spec(self) -> RightBounded {
        RightBounded { limit: self.limit, bound_type: self.bound_type.flip_spec() }
    }

    /// The complementary upper bound of the same value: opposite kind,
    /// opposite side — "the points just outside this bound".
    pub fn flip(self) -> (r: RightBounded)
        ensures
            r == self.flip_spec(),
    {
        RightBounded { limit: self.limit, bound_type: self.bound_type.flip() }
    }

    /// The first value this bound admits when stepping by `step`: the limit
    /// itself when inclusive, one step up when exclusive.
    pub open spec fn step_origin(self, step: int) -> int {
        if self.bound_type is Inclusive {
            self.limit as int
        } else {
            self.limit + step
        }
    }

    /// The first `count` samples of the arithmetic progression that starts at
    /// this bound and climbs by `step`.
    pub fn step_by(&self, step: i64, count: usize) -> (r: Vec<i64>)
        requires
            step >= 1,
            i64::MIN <= self.step_origin(step as int),
            self.step_origin(step as int) + count * step <= i64::MAX,
        ensures
            r.len() == count,
            forall|i: int|
                0 <= i < count ==> #[trigger] r[i] == self.step_origin(step as int) + i * step,
    {
        let mut r: Vec<i64> = Vec::new();
        if count == 0 {
            return r;
        }
        let first: i64 = if self.bound_type.is_inclusive() {
            self.limit
        } else {
            proof {
                assert(1 * step == step) by (nonlinear_arith);
                assert(count * step >= 1 * step) by (nonlinear_arith)
                    requires
                        count >= 1,
                        step >= 1,
                ;
            }
            self.limit + step
        };
        let mut t: i64 = first;
        let mut i: usize = 0;
        while i < count
            invariant
                0 <= i <= count,
                step >= 1,
                first == self.step_origin(step as int),
                first + count * step <= i64::MAX,
                i64::MIN <= first,
                r.len() == i,
                forall|j: int|
                    0 <= j < i ==> #[trigger] r[j] == self.step_origin(step as int) + j * step,
                i < count ==> t as int == first + i * step,
            decreases count - i,
        {
            r.push(t);
            i = i + 1;
            if i < count {
                proof {
                    assert((i - 1) * step + step == i * step) by (nonlinear_arith);
                    assert(i * step <= count * step) by (nonlinear_arith)
                        requires
                            0 <= i <= count,
                            step >= 1,
                    ;
                    assert(i * step >= 0) by (nonlinear_arith)
                        requires
                            i >= 0,
                            step >= 1,
                    ;
                }
                t = t + step;
            }
        }
        r
    }

    /// Exec comparison in the lower-bound order.
    fn le_exec(&self, other: &Self) -> (r: bool)
        ensures
            r == self.le_spec(*other),
    {
        self.limit < other.limit || (self.limit == other.limit && (self.bound_type.is_inclusive()
            || other.bound_type.is_exclusive()))
    }
}

impl RightBounded {
    /// Whether this upper bound admits the point `t`.
    pub open spec fn admits(self, t: int) -> bool {
        self.bound_type.le_by(t, self.limit as int)
    }

    /// Ascending order of upper bounds: the tighter bound (the one admitting
    /// fewer points) comes first. At equal limits, `Exclusive` sorts before
    /// `Inclusive` — the reverse of the lower-bound tie-break.
    pub open spec fn le_spec(self, other: RightBounded) -> bool {
        self.limit < other.limit || (self.limit == other.limit && (self.bound_type
            is Exclusive || other.bound_type is Inclusive))
    }

    /// The tighter of two upper bounds under the upper order.
    pub open spec fn intersection_spec(self, other: RightBounded) -> RightBounded {
        if self.le_spec(other) {
            self
        } else {
            other
        }
    }

    /// The looser of two upper bounds under the upper order.
    pub open spec fn union_spec(self, other: RightBounded) -> RightBounded {
        if self.le_spec(other) {
            other
        } else {
            self
        }
    }

    /// Build an upper bound from a side-less bound.
    pub fn from_bound(b: Bound) -> (r: RightBounded)
        ensures
            r.limit == b.limit,
            r.bound_type == b.bound_type,
    {
        RightBounded { limit: b.limit, bound_type: b.bound_type }
    }

    /// Is `self` at least as permissive as `other`? Value comparison alone.
    pub fn includes(&self, other: &Self) -> (r: bool)
        ensures
            r == (other.limit <= self.limit),
    {
        other.limit <= self.limit
    }

    /// Whether the point `t` lies on the admitted side of this bound.
    pub fn contains(&self, t: &i64) -> (r: bool)
        ensures
            r == self.admits(*t as int),
    {
        self.bound_type.less(t, &self.limit)
    }

    /// The tighter of the two bounds: exactly the points admitted by both.
    pub fn intersection(&self, other: &Self) -> (r: Self)
        ensures
            r == self.intersection_spec(*other),
            forall|t: int| r.admits(t) <==> self.admits(t) && other.admits(t),
    {
        proof {
            lemma_upper_order(*self, *other);
        }
        if self.le_exec(other) {
            *self
        } else {
            *other
        }
    }

    /// The looser of the two bounds: exactly the points admitted by either.
    pub fn union(&self, other: &Self) -> (r: Self)
        ensures
            r == self.union_spec(*other),
            forall|t: int| r.admits(t) <==> self.admits(t) || other.admits(t),
    {
        proof {
            lemma_upper_order(*self, *other);
        }
        if self.le_exec(other) {
            *other
        } else {
            *self
        }
    }

    /// The bound widened to take the point `t` in: the limit rises to
    /// `max(limit, t)`, the kind is kept.
    pub open spec fn hull_spec(self, t: i64) -> RightBounded {
        RightBounded {
            limit: if self.limit < t {
                t
            } else {
                self.limit
            },
            bound_type: self.bound_type,
        }
    }

    /// Widen the bound to take the point `t` in: the limit rises to
    /// `max(limit, t)`, the kind is kept.
    pub fn hull(self, t: i64) -> (r: Self)
        ensures
            r == self.hull_spec(t),
    {
        RightBounded { limit: partial_max(self.limit, t), bound_type: self.bound_type }
    }

    /// Shift the bound outward (upward) by `delta`.
    pub fn dilate(self, delta: i64) -> (r: Self)
        requires
            i64::MIN <= self.limit + delta <= i64::MAX,
        ensures
            r.limit == self.limit + delta,
            r.bound_type == self.bound_type,
    {
        RightBounded { limit: self.limit + delta, bound_type: self.bound_type }
    }

    /// The raw limit value, not adjusted for exclusivity.
    pub fn sup(&self) -> (r: i64)
        ensures
            r == self.limit,
    {
        self.limit
    }

    /// Force the kind to `Inclusive`, keeping the value.
    pub fn closure(self) -> (r: Self)
        ensures
            r.limit == self.limit,
            r.bound_type == BoundType::Inclusive,
    {
        RightBounded { limit: self.limit, bound_type: BoundType::Inclusive }
    }

    /// Force the kind to `Exclusive`, keeping the value.
    pub fn interior(self) -> (r: Self)
        ensures
            r.limit == self.limit,
            r.bound_type == BoundType::Exclusive,
    {
        RightBounded { limit: self.limit, bound_type: BoundType::Exclusive }
    }

    /// The complementary lower bound of the same value: opposite kind,
    /// opposite side.
    pub open spec fn flip_spec(self) -> LeftBounded {
        LeftBounded { limit: self.limit, bound_type: self.bound_type.flip_spec() }
    }

    /// The complementary lower bound of the same value: opposite kind,
    /// opposite side.
    pub fn flip(self) -> (r: LeftBounded)
        ensures
            r == self.flip_spec(),
    {
        LeftBounded { limit: self.limit, bound_type: self.bound_type.flip() }
    }

    /// The first value this bound admits when stepping down by `step`.
    pub open spec fn step_origin(self, step: int) -> int {
        if self.bound_type is Inclusive {
            self.limit as int
        } else {
            self.limit - step
        }
    }

    /// The first `count` samples of the arithmetic progression that starts at
    /// this bound and descends by `step`.
    pub fn step_rev_by(&self, step: i64, count: usize) -> (r: Vec<i64>)
        requires
            step >= 1,
            self.step_origin(step as int) <= i64::MAX,
            i64::MIN <= self.step_origin(step as int) - count * step,
        ensures
            r.len() == count,
            forall|i: int|
                0 <= i < count ==> #[trigger] r[i] == self.step_origin(step as int) - i * step,
    {
        let mut r: Vec<i64> = Vec::new();
        if count == 0 {
            return r;
        }
        let first: i64 = if self.bound_type.is_inclusive() {
            self.limit
        } else {
            proof {
                assert(1 * step == step) by (nonlinear_arith);
                assert(count * step >= 1 * step) by (nonlinear_arith)
                    requires
                        count >= 1,
                        step >= 1,
                ;
            }
            self.limit - step
        };
        let mut t: i64 = first;
        let mut i: usize = 0;
        while i < count
            invariant
                0 <= i <= count,
                step >= 1,
                first == self.step_origin(step as int),
                i64::MIN <= first - count * step,
                first <= i64::MAX,
                r.len() == i,
                forall|j: int|
                    0 <= j < i ==> #[trigger] r[j] == self.step_origin(step as int) - j * step,
                i < count ==> t as int == first - i * step,
            decreases count - i,
        {
            r.push(t);
            i = i + 1;
            if i < count {
                proof {
                    assert((i - 1) * step + step == i * step) by (nonlinear_arith);
                    assert(i * step <= count * step) by (nonlinear_arith)
                        requires
                            0 <= i <= count,
                            step >= 1,
                    ;
                    assert(i * step >= 0) by (nonlinear_arith)
                        requires
                            i >= 0,
                            step >= 1,
                    ;
                }
                t = t - step;
            }
        }
        r
    }

    /// Exec comparison in the upper-bound order.
    fn le_exec(&self, other: &Self) -> (r: bool)
        ensures
            r == self.le_spec(*other),
    {
        self.limit < other.limit || (self.limit == other.limit && (self.bound_type.is_exclusive()
            || other.bound_type.is_inclusive()))
    }
}

/// The smaller of two values; ties keep the first.
pub fn partial_min(a: i64, b: i64) -> (r: i64)
    ensures
        r == if a < b {
            a
        } else {
            b
        },
{
    if a < b {
        a
    } else {
        b
    }
}

/// The larger of two values; ties keep the first.
pub fn partial_max(a: i64, b: i64) -> (r: i64)
    ensures
        r == if a > b {
            a
        } else {
            b
        },
{
    if a > b {
        a
    } else {
        b
    }
}

/// The lower-bound order agrees with pointwise containment: a bound earlier
/// in the order admits every point the later one admits.
pub proof fn lemma_lower_order(a: LeftBounded, b: LeftBounded)
    ensures
        a.le_spec(b) ==> forall|t: int| b.admits(t) ==> a.admits(t),
        a.le_spec(b) || b.le_spec(a),
        a.le_spec(b) && b.le_spec(a) ==> a == b,
{
}

/// The upper-bound order agrees with pointwise containment: a bound later in
/// the order admits every point the earlier one admits.
pub proof fn lemma_upper_order(a: RightBounded, b: RightBounded)
    ensures
        a.le_spec(b) ==> forall|t: int| a.admits(t) ==> b.admits(t),
        a.le_spec(b) || b.le_spec(a),
        a.le_spec(b) && b.le_spec(a) ==> a == b,
{
}

impl PartialOrd for LeftBounded {
    /// Total order of lower bounds: by limit, then by the lower tie-break
    /// (`Inclusive` before `Exclusive`).
    fn partial_cmp(&self, other: &Self) -> (r: Option<Ordering>) {
        if self.limit < other.limit {
            Some(Ordering::Less)
        } else if other.limit < self.limit {
            Some(Ordering::Greater)
        } else if self.bound_type.is_inclusive() && other.bound_type.is_exclusive() {
            Some(Ordering::Less)
        } else if self.bound_type.is_exclusive() && other.bound_type.is_inclusive() {
            Some(Ordering::Greater)
        } else {
            Some(Ordering::Equal)
        }
    }
}

impl vstd::std_specs::cmp::PartialOrdSpecImpl for LeftBounded {
    open spec fn obeys_partial_cmp_spec() -> bool {
        true
    }

    open spec fn partial_cmp_spec(&self, other: &Self) -> Option<Ordering> {
        if *self == *other {
            Some(Ordering::Equal)
        } else if self.le_spec(*other) {
            Some(Ordering::Less)
        } else {
            Some(Ordering::Greater)
        }
    }
}

impl PartialOrd for RightBounded {
    /// Total order of upper bounds: by limit, then by the upper tie-break
    /// (`Exclusive` before `Inclusive`).
    fn partial_cmp(&self, other: &Self) -> (r: Option<Ordering>) {
        if self.limit < other.limit {
            Some(Ordering::Less)
        } else if other.limit < self.limit {
            Some(Ordering::Greater)
        } else if self.bound_type.is_exclusive() && other.bound_type.is_inclusive() {
            Some(Ordering::Less)
        } else if self.bound_type.is_inclusive() && other.bound_type.is_exclusive() {
            Some(Ordering::Greater)
        } else {
            Some(Ordering::Equal)
        }
    }
}

impl vstd::std_specs::cmp::PartialOrdSpecImpl for RightBounded {
    open spec fn obeys_partial_cmp_spec() -> bool {
        true
    }

    open spec fn partial_cmp_spec(&self, other: &Self) -> Option<Ordering> {
        if *self == *other {
            Some(Ordering::Equal)
        } else if self.le_spec(*other) {
            Some(Ordering::Less)
        } else {
            Some(Ordering::Greater)
        }
    }
}

} // verus!
