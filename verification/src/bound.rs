//! A bound: one endpoint of an interval, carrying a scalar value and a
//! boundary kind. A `Bound` is side-less; it becomes a lower or an upper
//! bound when an interval is built from it.

use crate::bound_type::BoundType;
use vstd::prelude::*;

verus! {

/// One endpoint of an interval: a limit value plus its inclusivity.
#[derive(Debug, Clone, Copy, PartialEq, Eq, Structural)]
pub struct Bound {
    pub limit: i64,
    pub bound_type: BoundType,
}

impl Bound {
    /// Build a bound from its value and kind.
    pub fn new(limit: i64, bound_type: BoundType) -> (r: Bound)
        ensures
            r == (Bound { limit, bound_type }),
    {
        Bound { limit, bound_type }
    }

    /// Same value, complemented kind: "the point just past this bound".
    pub fn flip(self) -> (r: Bound)
        ensures
            r.limit == self.limit,
            r.bound_type == self.bound_type.flip_spec(),
    {
        Bound { limit: self.limit, bound_type: self.bound_type.flip() }
    }
}

/// An inclusive bound at `t`; side-less until used in an interval.
pub fn inclusive(t: i64) -> (r: Bound)
    ensures
        r == (Bound { limit: t, bound_type: BoundType::Inclusive }),
{
    Bound { limit: t, bound_type: BoundType::Inclusive }
}

/// An exclusive bound at `t`; side-less until used in an interval.
pub fn exclusive(t: i64) -> (r: Bound)
    ensures
        r == (Bound { limit: t, bound_type: BoundType::Exclusive }),
{
    Bound { limit: t, bound_type: BoundType::Exclusive }
}

} // verus!
