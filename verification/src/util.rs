use vstd::prelude::*;

verus! {

use crate::vec::{Scalar, VecElement};

/// A supply of random coordinate values, the one collaborator the sampling
/// code draws from.  A client crate implements it over its generator of
/// choice; per-thread instances keep workers independent.
///
/// Nothing is promised of the values: every contract downstream states what
/// holds of the result whatever was drawn.
pub trait RandomSource<T: VecElement> {
    /// A draw from the unit interval `[0, 1)`.
    fn canonical(&mut self) -> T;

    /// A draw from the half-open interval `[from, to)`.
    fn uniform(&mut self, from: T, to: T) -> T;
}

pub fn random() {
}

/// The smaller of the two values under the coordinate order.
pub open spec fn spec_min<T: VecElement>(a: T, b: T) -> T {
    if b.sp_lt(a) {
        b
    } else {
        a
    }
}

/// The value with its sign stripped under the coordinate order.
pub open spec fn spec_abs<T: VecElement>(a: T) -> T {
    if a.sp_lt(T::sp_zero()) {
        a.sp_neg()
    } else {
        a
    }
}

pub fn min_el<T: VecElement>(a: T, b: T) -> (r: T)
    ensures
        r == spec_min(a, b),
{
    if b.el_lt(a) {
        b
    } else {
        a
    }
}

pub fn abs_el<T: VecElement>(a: T) -> (r: T)
    ensures
        r == spec_abs(a),
{
    if a.el_lt(T::el_zero()) {
        a.el_neg()
    } else {
        a
    }
}

/// Gamma-2 correction of one linear channel: its square root.
pub fn linear_to_gamma<T: Scalar>(linear: T) -> (r: T)
    ensures
        r == linear.sp_sqrt(),
{
    linear.el_sqrt()
}

} // verus!
