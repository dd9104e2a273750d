//! Boundary kinds: whether an endpoint value itself belongs to the interval.
//!
//! The kind exists in two forms that convert losslessly in one direction:
//! the zero-size markers [`Inclusive`] and [`Exclusive`], and the runtime
//! tag [`BoundType`] with one variant per marker. The runtime tag is the
//! working representation; the markers are entry points (`Inclusive.at(3)`)
//! that generalize into it.

use vstd::prelude::*;

verus! {

/// Marker for a boundary that admits its own endpoint value.
#[derive(Debug, Clone, Copy, PartialEq, Eq, Structural, Default)]
pub struct Inclusive;

/// Marker for a boundary that excludes its own endpoint value.
#[derive(Debug, Clone, Copy, PartialEq, Eq, Structural, Default)]
pub struct Exclusive;

/// Runtime-chosen boundary kind: inclusive or exclusive.
#[derive(Debug, Clone, Copy, PartialEq, Eq, Structural)]
pub enum BoundType {
    Inclusive,
    Exclusive,
}

/// Marker for the lower (left) side of an interval.
#[derive(Debug, Clone, Copy, PartialEq, Eq, Structural)]
pub struct Left;

/// Marker for the upper (right) side of an interval.
#[derive(Debug, Clone, Copy, PartialEq, Eq, Structural)]
pub struct Right;

impl BoundType {
    /// The boundary relation this kind places between a bound value `a` and a
    /// probe `b` on its inner side: `a <= b` when inclusive, `a < b` when
    /// exclusive. A lower bound at `limit` admits `t` iff `le_by(limit, t)`;
    /// an upper bound at `limit` admits `t` iff `le_by(t, limit)`.
    pub open spec fn le_by(self, a: int, b: int) -> bool {
        match self {
            BoundType::Inclusive => a <= b,
            BoundType::Exclusive => a < b,
        }
    }

    /// The complementary kind, used when reasoning about the other side of a
    /// cut: `Inclusive <-> Exclusive`.
    pub open spec fn flip_spec(self) -> BoundType {
        match self {
            BoundType::Inclusive => BoundType::Exclusive,
            BoundType::Exclusive => BoundType::Inclusive,
        }
    }

    /// Logical complement of the kind; total, never fails.
    pub fn flip(self) -> (r: BoundType)
        ensures
            r == self.flip_spec(),
    {
        match self {
            BoundType::Inclusive => BoundType::Exclusive,
            BoundType::Exclusive => BoundType::Inclusive,
        }
    }

    /// Whether `this <= t` (inclusive) or `this < t` (exclusive) holds.
    pub fn less(&self, this: &i64, t: &i64) -> (r: bool)
        ensures
            r == self.le_by(*this as int, *t as int),
    {
        match self {
            BoundType::Inclusive => *this <= *t,
            BoundType::Exclusive => *this < *t,
        }
    }

    pub fn is_inclusive(&self) -> (r: bool)
        ensures
            r == (self is Inclusive),
    {
        matches!(self, BoundType::Inclusive)
    }

    pub fn is_exclusive(&self) -> (r: bool)
        ensures
            r == (self is Exclusive),
    {
        matches!(self, BoundType::Exclusive)
    }
}

impl Inclusive {
    /// The complementary marker kind.
    pub fn flip(self) -> (r: Exclusive)
        ensures
            r == Exclusive,
    {
        Exclusive
    }

    /// Lossless embedding of the static marker into the runtime kind.
    pub fn into_general(self) -> (r: BoundType)
        ensures
            r == BoundType::Inclusive,
    {
        BoundType::Inclusive
    }
}

impl Exclusive {
    /// The complementary marker kind.
    pub fn flip(self) -> (r: Inclusive)
        ensures
            r == Inclusive,
    {
        Inclusive
    }

    /// Lossless embedding of the static marker into the runtime kind.
    pub fn into_general(self) -> (r: BoundType)
        ensures
            r == BoundType::Exclusive,
    {
        BoundType::Exclusive
    }
}

impl Left {
    /// The opposite side.
    pub fn flip(self) -> (r: Right)
        ensures
            r == Right,
    {
        Right
    }
}

impl Right {
    /// The opposite side.
    pub fn flip(self) -> (r: Left)
        ensures
            r == Left,
    {
        Left
    }
}

} // verus!
