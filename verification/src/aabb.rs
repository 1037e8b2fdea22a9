use vstd::prelude::*;

verus! {

use crate::interval::{spec_combine, Interval};
use crate::ray::Ray;
use crate::vec::{Scalar, VecElement, Vector};

/// An axis-aligned box: one interval per axis.
#[derive(Clone, Copy, Debug)]
pub struct AABB<T: VecElement, const N: usize> {
    intervals: [Interval<T>; N],
}

/// The entry parameter of a ray into one slab wall:
/// `(wall - origin) / direction`, per axis.
pub open spec fn spec_slab_t<T: VecElement, const N: usize>(
    wall: T,
    ray: Ray<T, N>,
    ax: int,
) -> T {
    wall.sp_sub(ray.origin.data@[ax]).sp_div(ray.direction.data@[ax])
}

/// The working range of the slab test after the first `ax` axes: each axis
/// orders its two wall parameters and narrows the range to their overlap
/// with it.
pub open spec fn spec_slab_range<T: VecElement, const N: usize>(
    bbox: Seq<Interval<T>>,
    ray: Ray<T, N>,
    range: Interval<T>,
    ax: int,
) -> Interval<T>
    decreases ax,
{
    if ax <= 0 {
        range
    } else {
        let prev = spec_slab_range(bbox, ray, range, ax - 1);
        let t0 = spec_slab_t(bbox[ax - 1].min, ray, ax - 1);
        let t1 = spec_slab_t(bbox[ax - 1].max, ray, ax - 1);
        let (lo, hi) = if t0.sp_lt(t1) {
            (t0, t1)
        } else {
            (t1, t0)
        };
        Interval {
            min: if prev.min.sp_lt(lo) {
                lo
            } else {
                prev.min
            },
            max: if hi.sp_lt(prev.max) {
                hi
            } else {
                prev.max
            },
        }
    }
}

/// Whether the working range is still nonempty after narrowing by axis `ax`.
pub open spec fn spec_slab_alive<T: VecElement, const N: usize>(
    bbox: Seq<Interval<T>>,
    ray: Ray<T, N>,
    range: Interval<T>,
    ax: int,
) -> bool {
    !spec_slab_range(bbox, ray, range, ax).max.sp_le(spec_slab_range(bbox, ray, range, ax).min)
}

/// Whether the slab test reports a hit: no axis empties the working range.
pub open spec fn spec_slab_hit<T: VecElement, const N: usize>(
    bbox: Seq<Interval<T>>,
    ray: Ray<T, N>,
    range: Interval<T>,
) -> bool {
    forall|ax: int| 1 <= ax <= N ==> spec_slab_alive(bbox, ray, range, ax)
}

impl<T: VecElement, const N: usize> AABB<T, N> {
    /// The per-axis intervals of the box.
    pub closed spec fn spec_intervals(self) -> Seq<Interval<T>> {
        self.intervals@
    }

    pub fn new(intervals: [Interval<T>; N]) -> (r: Self)
        ensures
            r.spec_intervals() == intervals@,
    {
        Self { intervals }
    }

    /// The box spanned by two opposite corner points: per axis, the two
    /// coordinates in order, the first one lower on ties.
    pub fn from_points(a: Vector<T, N>, b: Vector<T, N>) -> (r: Self)
        ensures
            r.spec_intervals().len() == N,
            forall|i: int|
                0 <= i < N ==> #[trigger] r.spec_intervals()[i] == (if b.data@[i].sp_lt(
                    a.data@[i],
                ) {
                    Interval { min: b.data@[i], max: a.data@[i] }
                } else {
                    Interval { min: a.data@[i], max: b.data@[i] }
                }),
    {
        let mut intervals: [Interval<T>; N] = vstd::array::array_fill_for_copy_types(
            Interval::new(T::el_zero(), T::el_zero()),
        );
        let mut i: usize = 0;
        while i < N
            invariant
                0 <= i <= N,
                intervals@.len() == N,
                forall|j: int|
                    0 <= j < i ==> #[trigger] intervals@[j] == (if b.data@[j].sp_lt(a.data@[j]) {
                        Interval { min: b.data@[j], max: a.data@[j] }
                    } else {
                        Interval { min: a.data@[j], max: b.data@[j] }
                    }),
            decreases N - i,
        {
            intervals[i] = if b.data[i].el_lt(a.data[i]) {
                Interval::new(b.data[i], a.data[i])
            } else {
                Interval::new(a.data[i], b.data[i])
            };
            i = i + 1;
        }
        Self { intervals }
    }

    /// The union of both boxes, axis by axis, this box enlarged in place.
    pub fn combine(&mut self, other: &Self)
        ensures
            final(self).spec_intervals().len() == N,
            forall|i: int|
                0 <= i < N ==> #[trigger] final(self).spec_intervals()[i] == spec_combine(
                    old(self).spec_intervals()[i],
                    other.spec_intervals()[i],
                ),
    {
        let mut intervals = self.intervals;
        let mut i: usize = 0;
        while i < N
            invariant
                0 <= i <= N,
                intervals@.len() == N,
                forall|j: int| i <= j < N ==> intervals@[j] == old(self).spec_intervals()[j],
                forall|j: int|
                    0 <= j < i ==> #[trigger] intervals@[j] == spec_combine(
                        old(self).spec_intervals()[j],
                        other.spec_intervals()[j],
                    ),
            decreases N - i,
        {
            intervals[i] = intervals[i].combine_new(&other.intervals[i]);
            i = i + 1;
        }
        self.intervals = intervals;
    }

    /// The union of both boxes, as a new box.
    pub fn combine_new(self, other: &Self) -> (r: Self)
        ensures
            r.spec_intervals().len() == N,
            forall|i: int|
                0 <= i < N ==> #[trigger] r.spec_intervals()[i] == spec_combine(
                    self.spec_intervals()[i],
                    other.spec_intervals()[i],
                ),
    {
        let mut combined = self;
        combined.combine(other);
        combined
    }

    pub fn axis_interval(&self, axis: usize) -> (r: &Interval<T>)
        requires
            axis < N,
        ensures
            *r == self.spec_intervals()[axis as int],
    {
        vstd::array::array_index_get(&self.intervals, axis)
    }

    /// The width of one axis of the box: its upper end less its lower end.
    pub open spec fn spec_extent(self, i: int) -> T {
        self.spec_intervals()[i].max.sp_sub(self.spec_intervals()[i].min)
    }

    /// The axis with the widest extent `max - min`, earlier axes winning
    /// ties.  Any axis is a sound split choice; where the coordinate order
    /// is total, the chosen one is widest.
    pub fn longest_axis(&self) -> (r: usize)
        requires
            N >= 1,
        ensures
            r < N,
            crate::interval::order_laws::<T>() ==> forall|i: int|
                0 <= i < N ==> !self.spec_extent(r as int).sp_lt(#[trigger] self.spec_extent(i)),
    {
        let mut best: usize = 0;
        let mut best_extent = self.intervals[0].max.el_sub(self.intervals[0].min);
        let mut i: usize = 1;
        while i < N
            invariant
                1 <= i <= N,
                best < N,
                best_extent == self.spec_extent(best as int),
                crate::interval::order_laws::<T>() ==> forall|j: int|
                    0 <= j < i ==> !best_extent.sp_lt(#[trigger] self.spec_extent(j)),
            decreases N - i,
        {
            let extent = self.intervals[i].max.el_sub(self.intervals[i].min);
            if best_extent.el_lt(extent) {
                best = i;
                best_extent = extent;
            }
            i = i + 1;
        }
        best
    }

    /// The slab test: walk the axes, narrowing the parameter range by each
    /// pair of walls; the ray misses as soon as the range empties.
    pub fn hit(&self, ray: Ray<T, N>, interval: Interval<T>) -> (r: bool)
        ensures
            r == spec_slab_hit(self.spec_intervals(), ray, interval),
    {
        let mut range = interval;
        let mut ax: usize = 0;
        while ax < N
            invariant
                0 <= ax <= N,
                self.intervals@.len() == N,
                range == spec_slab_range(self.intervals@, ray, interval, ax as int),
                forall|k: int| 1 <= k <= ax ==> spec_slab_alive(self.intervals@, ray, interval, k),
            decreases N - ax,
        {
            let t0 = self.intervals[ax].min.el_sub(ray.origin.data[ax]).el_div(
                ray.direction.data[ax],
            );
            let t1 = self.intervals[ax].max.el_sub(ray.origin.data[ax]).el_div(
                ray.direction.data[ax],
            );

            if t0.el_lt(t1) {
                if range.min.el_lt(t0) {
                    range.min = t0;
                }
                if t1.el_lt(range.max) {
                    range.max = t1;
                }
            } else {
                if range.min.el_lt(t1) {
                    range.min = t1;
                }
                if t0.el_lt(range.max) {
                    range.max = t0;
                }
            }

            if range.max.el_le(range.min) {
                proof {
                    assert(!spec_slab_alive(self.intervals@, ray, interval, ax + 1));
                }
                return false;
            }
            ax = ax + 1;
        }
        true
    }
}

impl<T: Scalar, const N: usize> AABB<T, N> {
    /// The box holding nothing: every axis gets the empty range.
    pub fn empty() -> (r: Self)
        ensures
            r.spec_intervals() =~= Seq::new(
                N as nat,
                |i: int| Interval { min: T::sp_inf(), max: T::sp_neg_inf() },
            ),
    {
        Self { intervals: vstd::array::array_fill_for_copy_types(Interval::empty()) }
    }

    /// The box holding everything: every axis gets the full range.
    pub fn universe() -> (r: Self)
        ensures
            r.spec_intervals() =~= Seq::new(
                N as nat,
                |i: int| Interval { min: T::sp_neg_inf(), max: T::sp_inf() },
            ),
    {
        Self { intervals: vstd::array::array_fill_for_copy_types(Interval::universe()) }
    }
}

} // verus!
