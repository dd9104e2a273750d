//! A fixed-dimension tuple of values, one per axis. The dimension is a type
//! parameter; the payload lives in a vector whose length must equal it.

use vstd::prelude::*;

verus! {

/// An `N`-tuple of values of one type, one per axis.
#[derive(Debug, Clone, PartialEq, Eq)]
pub struct NDim<const N: usize, T>(pub Vec<T>);

/// A pair of named coordinates.
#[derive(Debug, Clone, Copy, PartialEq, Eq)]
pub struct Xy<T> {
    pub x: T,
    pub y: T,
}

/// A triple of named coordinates.
#[derive(Debug, Clone, Copy, PartialEq, Eq)]
pub struct Xyz<T> {
    pub x: T,
    pub y: T,
    pub z: T,
}

/// A quadruple of named coordinates.
#[derive(Debug, Clone, Copy, PartialEq, Eq)]
pub struct Xyzw<T> {
    pub x: T,
    pub y: T,
    pub z: T,
    pub w: T,
}

impl<const N: usize, T> NDim<N, T> {
    /// The payload has exactly one value per axis.
    pub open spec fn wf(self) -> bool {
        self.0.len() == N
    }

    /// The axis values as a vector.
    pub fn as_array(&self) -> (r: &Vec<T>)
        ensures
            r == self.0,
    {
        &self.0
    }

    /// The axis values, consumed.
    pub fn into_array(self) -> (r: Vec<T>)
        ensures
            r == self.0,
    {
        self.0
    }

    /// Wrap one value per axis.
    pub fn from_array(src: Vec<T>) -> (r: Self)
        requires
            src.len() == N,
        ensures
            r.0 == src,
            r.wf(),
    {
        NDim(src)
    }
}

} // verus!
