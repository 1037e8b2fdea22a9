use vstd::prelude::*;

verus! {

use crate::vec::{Scalar, VecElement};

/// A numeric range with a lower and an upper end.  `contains` is the closed
/// reading, `surrounds` the open one; a range whose ends are out of order is
/// empty under both.
#[derive(Clone, Copy, Debug, PartialEq)]
pub struct Interval<T: VecElement> {
    pub min: T,
    pub max: T,
}

/// The pointwise union of two ranges: the smaller lower end with the larger
/// upper end, ties resolved towards the first argument as the executable
/// comparison does.
pub open spec fn spec_combine<T: VecElement>(a: Interval<T>, b: Interval<T>) -> Interval<T> {
    Interval {
        min: if a.min.sp_lt(b.min) {
            a.min
        } else {
            b.min
        },
        max: if b.max.sp_lt(a.max) {
            a.max
        } else {
            b.max
        },
    }
}

/// Both ends pushed outward by the padding.
pub open spec fn spec_expand<T: VecElement>(a: Interval<T>, padding: T) -> Interval<T> {
    Interval { min: a.min.sp_sub(padding), max: a.max.sp_add(padding) }
}

impl<T: VecElement> Interval<T> {
    /// Whether the value lies within the closed range.
    pub open spec fn spec_contains(self, value: T) -> bool {
        self.min.sp_le(value) && value.sp_le(self.max)
    }

    /// Whether the value lies strictly within the range.
    pub open spec fn spec_surrounds(self, value: T) -> bool {
        self.min.sp_lt(value) && value.sp_lt(self.max)
    }

    /// The value pulled to the nearer end of the range if it lies outside.
    pub open spec fn spec_clamp(self, value: T) -> T {
        if value.sp_lt(self.min) {
            self.min
        } else if self.max.sp_lt(value) {
            self.max
        } else {
            value
        }
    }

    pub fn new(min: T, max: T) -> (r: Self)
        ensures
            r.min == min,
            r.max == max,
    {
        Self { min, max }
    }

    pub fn combine_new(&self, other: &Self) -> (r: Self)
        ensures
            r == spec_combine(*self, *other),
    {
        Self {
            min: if self.min.el_lt(other.min) {
                self.min
            } else {
                other.min
            },
            max: if other.max.el_lt(self.max) {
                self.max
            } else {
                other.max
            },
        }
    }

    pub fn combine(&mut self, other: &Self)
        ensures
            *final(self) == spec_combine(*old(self), *other),
    {
        self.min = if self.min.el_lt(other.min) {
            self.min
        } else {
            other.min
        };
        self.max = if other.max.el_lt(self.max) {
            self.max
        } else {
            other.max
        };
    }

    pub fn expand_new(&self, padding: T) -> (r: Self)
        ensures
            r == spec_expand(*self, padding),
    {
        Interval::new(self.min.el_sub(padding), self.max.el_add(padding))
    }

    pub fn expand(&mut self, padding: T)
        ensures
            *final(self) == spec_expand(*old(self), padding),
    {
        self.min = self.min.el_sub(padding);
        self.max = self.max.el_add(padding);
    }

    pub fn contains(&self, value: T) -> (r: bool)
        ensures
            r == self.spec_contains(value),
    {
        self.min.el_le(value) && value.el_le(self.max)
    }

    pub fn surrounds(&self, value: T) -> (r: bool)
        ensures
            r == self.spec_surrounds(value),
    {
        self.min.el_lt(value) && value.el_lt(self.max)
    }

    /// Whether `other` lies within `self`, ends included.
    pub fn contains_interval(&self, other: &Self) -> (r: bool)
        ensures
            r == (self.min.sp_le(other.min) && other.max.sp_le(self.max)),
    {
        self.min.el_le(other.min) && other.max.el_le(self.max)
    }

    /// Whether `other` lies strictly within `self`.
    pub fn surrounds_interval(&self, other: &Self) -> (r: bool)
        ensures
            r == (self.min.sp_lt(other.min) && other.max.sp_lt(self.max)),
    {
        self.min.el_lt(other.min) && other.max.el_lt(self.max)
    }

    pub fn clamp(&self, value: T) -> (r: T)
        ensures
            r == self.spec_clamp(value),
    {
        if value.el_lt(self.min) {
            self.min
        } else if self.max.el_lt(value) {
            self.max
        } else {
            value
        }
    }
}

impl<T: Scalar> Interval<T> {
    /// The empty range: its ends are the infinities, out of order.
    pub fn empty() -> (r: Self)
        ensures
            r.min == T::sp_inf(),
            r.max == T::sp_neg_inf(),
    {
        Self { min: T::el_inf(), max: T::el_neg_inf() }
    }

    /// The range holding every value.
    pub fn universe() -> (r: Self)
        ensures
            r.min == T::sp_neg_inf(),
            r.max == T::sp_inf(),
    {
        Self { min: T::el_neg_inf(), max: T::el_inf() }
    }
}

/// The coordinate order behaving as a total order: trichotomy, transitivity,
/// asymmetry, and the non-strict order as the negation of the reversed
/// strict one.  The integer instance obeys all of it; a floating-point
/// instance obeys it on everything but its not-a-number values.
pub open spec fn order_laws<T: VecElement>() -> bool {
    &&& forall|a: T, b: T| !a.sp_lt(b) && !b.sp_lt(a) ==> a == b
    &&& forall|a: T, b: T, c: T| a.sp_lt(b) && b.sp_lt(c) ==> a.sp_lt(c)
    &&& forall|a: T, b: T| #[trigger] a.sp_lt(b) ==> !b.sp_lt(a)
    &&& forall|a: T, b: T| #[trigger] a.sp_le(b) <==> !b.sp_lt(a)
}

/// Combining ranges is commutative: under a total coordinate order, the
/// union of two ranges does not depend on their order.
pub proof fn lemma_combine_commutative<T: VecElement>(a: Interval<T>, b: Interval<T>)
    requires
        order_laws::<T>(),
    ensures
        spec_combine(a, b) == spec_combine(b, a),
{
}

/// Combining ranges is associative: under a total coordinate order, the
/// union of three ranges does not depend on the grouping.
pub proof fn lemma_combine_associative<T: VecElement>(
    a: Interval<T>,
    b: Interval<T>,
    c: Interval<T>,
)
    requires
        order_laws::<T>(),
    ensures
        spec_combine(spec_combine(a, b), c) == spec_combine(a, spec_combine(b, c)),
{
}

/// Clamping lands inside the range: for ordered ends `min <= max`, the
/// clamped value satisfies the closed containment test.
pub proof fn lemma_clamp_contained<T: VecElement>(r: Interval<T>, value: T)
    requires
        order_laws::<T>(),
        r.min.sp_le(r.max),
    ensures
        r.spec_contains(r.spec_clamp(value)),
{
}

/// The integer coordinate order is total.
pub proof fn lemma_i64_order_laws()
    ensures
        order_laws::<i64>(),
{
}

} // verus!
