//! Conversions between intervals and the native range syntax: `a..b` is the
//! right-half-open interval `[a, b)`.

use crate::bound_type::BoundType;
use crate::half::{LeftBounded, RightBounded};
use crate::interval::{is_valid_interval, valid_pair, Interval};
use crate::IntervalIsEmpty;
use vstd::prelude::*;

verus! {

impl Interval {
    /// The interval `[r.start, r.end)` of a half-open range; fails with
    /// [`IntervalIsEmpty`] when `r.start >= r.end`.
    pub fn try_from_range(r: std::ops::Range<i64>) -> (res: Result<Interval, IntervalIsEmpty>)
        ensures
            ({
                let lb = LeftBounded { limit: r.start, bound_type: BoundType::Inclusive };
                let rb = RightBounded { limit: r.end, bound_type: BoundType::Exclusive };
                res == if valid_pair(lb, rb) {
                    Ok::<Interval, IntervalIsEmpty>(Interval { left: lb, right: rb })
                } else {
                    Err::<Interval, IntervalIsEmpty>(IntervalIsEmpty)
                }
            }),
            res is Ok <==> r.start < r.end,
            res is Ok ==> res->Ok_0.wf(),
    {
        let lb = LeftBounded { limit: r.start, bound_type: BoundType::Inclusive };
        let rb = RightBounded { limit: r.end, bound_type: BoundType::Exclusive };
        if is_valid_interval(&lb, &rb) {
            Ok(Interval { left: lb, right: rb })
        } else {
            Err(IntervalIsEmpty)
        }
    }

    /// The interval `[lo, hi]` of an inclusive range's endpoints; fails with
    /// [`IntervalIsEmpty`] when `lo > hi`.
    pub fn try_from_range_inclusive(lo: i64, hi: i64) -> (res: Result<Interval, IntervalIsEmpty>)
        ensures
            ({
                let lb = LeftBounded { limit: lo, bound_type: BoundType::Inclusive };
                let rb = RightBounded { limit: hi, bound_type: BoundType::Inclusive };
                res == if valid_pair(lb, rb) {
                    Ok::<Interval, IntervalIsEmpty>(Interval { left: lb, right: rb })
                } else {
                    Err::<Interval, IntervalIsEmpty>(IntervalIsEmpty)
                }
            }),
            res is Ok <==> lo <= hi,
            res is Ok ==> res->Ok_0.wf(),
    {
        let lb = LeftBounded { limit: lo, bound_type: BoundType::Inclusive };
        let rb = RightBounded { limit: hi, bound_type: BoundType::Inclusive };
        if is_valid_interval(&lb, &rb) {
            Ok(Interval { left: lb, right: rb })
        } else {
            Err(IntervalIsEmpty)
        }
    }

    /// The native half-open range of a `[a, b)` interval.
    pub fn to_range(self) -> (r: std::ops::Range<i64>)
        requires
            self.left.bound_type is Inclusive,
            self.right.bound_type is Exclusive,
        ensures
            r.start == self.left.limit,
            r.end == self.right.limit,
    {
        self.left.limit..self.right.limit
    }
}

} // verus!
