//! A point in `N` dimensions: a fixed-length tuple of coordinates.

use vstd::prelude::*;

verus! {

/// A `N`-dimensional point.
#[derive(Debug, Clone, PartialEq, Eq)]
pub struct Kd<const N: usize, T>(pub Vec<T>);

impl<const N: usize, T> Kd<N, T> {
    /// The point has exactly one coordinate per axis.
    pub open spec fn wf(self) -> bool {
        self.0.len() == N
    }

    /// The coordinates as a vector.
    pub fn as_array(&self) -> (r: &Vec<T>)
        ensures
            r == self.0,
    {
        &self.0
    }

    /// The coordinates, consumed.
    pub fn into_array(self) -> (r: Vec<T>)
        ensures
            r == self.0,
    {
        self.0
    }
}

impl<T> Kd<2, T> {
    /// The two-dimensional point `(x, y)`.
    pub fn new(x: T, y: T) -> (r: Self)
        ensures
            r.0@ =~= seq![x, y],
            r.wf(),
    {
        let mut v: Vec<T> = Vec::new();
        v.push(x);
        v.push(y);
        Kd(v)
    }
}

impl<T> Kd<3, T> {
    /// The three-dimensional point `(x, y, z)`.
    pub fn new(x: T, y: T, z: T) -> (r: Self)
        ensures
            r.0@ =~= seq![x, y, z],
            r.wf(),
    {
        let mut v: Vec<T> = Vec::new();
        v.push(x);
        v.push(y);
        v.push(z);
        Kd(v)
    }
}

impl<T> Kd<4, T> {
    /// The four-dimensional point `(x, y, z, w)`.
    pub fn new(x: T, y: T, z: T, w: T) -> (r: Self)
        ensures
            r.0@ =~= seq![x, y, z, w],
            r.wf(),
    {
        let mut v: Vec<T> = Vec::new();
        v.push(x);
        v.push(y);
        v.push(z);
        v.push(w);
        Kd(v)
    }
}

} // verus!
