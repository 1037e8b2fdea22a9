use vstd::prelude::*;

verus! {

use crate::vec::{seq_add, seq_mul_scalar, VecElement, Vector};

/// A ray: a starting point, a direction, and the moment of the exposure it
/// samples, in `[0, 1]` across the shutter.
#[derive(Clone, Copy, Debug)]
pub struct Ray<T: VecElement, const N: usize> {
    pub origin: Vector<T, N>,
    pub direction: Vector<T, N>,
    pub time: T,
}

/// The coordinates of the point a ray reaches at parameter `t`:
/// `origin + direction * t`.
pub open spec fn spec_ray_at<T: VecElement, const N: usize>(ray: Ray<T, N>, t: T) -> Seq<T> {
    seq_add(ray.origin.data@, seq_mul_scalar(ray.direction.data@, t))
}

impl<T: VecElement, const N: usize> Ray<T, N> {
    pub fn at(&self, t: T) -> (r: Vector<T, N>)
        ensures
            r.data@ == spec_ray_at(*self, t),
    {
        let r = self.origin + self.direction * t;
        proof {
            assert(r.data@ =~= spec_ray_at(*self, t));
        }
        r
    }
}

} // verus!
