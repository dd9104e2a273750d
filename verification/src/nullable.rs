//! A thin wrapper of `Option<T>` under a fold-friendly name, used where a
//! possibly-absent interval (an empty fold, a failed construction) travels
//! as a value of its own.

use vstd::prelude::*;

verus! {

/// Wrapper of `Option<T>`.
#[derive(Debug, Clone, Copy, PartialEq, Eq)]
pub struct Nullable<T>(pub Option<T>);

impl<T> Nullable<T> {
    /// The wrapped option.
    pub fn into_option(self) -> (r: Option<T>)
        ensures
            r == self.0,
    {
        self.0
    }

    /// Wrap an option.
    pub fn from_option(o: Option<T>) -> (r: Self)
        ensures
            r.0 == o,
    {
        Nullable(o)
    }

    /// Whether no value is present.
    pub fn is_null(&self) -> (r: bool)
        ensures
            r == (self.0 is None),
    {
        self.0.is_none()
    }

    /// The wrapped value, which must be present.
    pub fn unwrap(self) -> (r: T)
        requires
            self.0 is Some,
        ensures
            r == self.0->0,
    {
        self.0.unwrap()
    }
}

} // verus!
