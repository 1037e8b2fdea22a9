use vstd::prelude::*;

verus! {

use crate::aabb::{spec_slab_hit, AABB};
use crate::hittable::{deref_material, HitRecord, HitResult, Sphere};
use crate::material::Material;
use crate::interval::{spec_combine, Interval};
use crate::ray::Ray;
use crate::vec::Scalar;

/// One child of a tree node: a primitive, or a whole subtree.
pub enum BvhNodeElement<T: Scalar> {
    Leaf(Sphere<T>),
    Node(Box<BvhNode<T>>),
}

/// A node of the bounding volume hierarchy: up to two children and the box
/// holding everything beneath.
pub struct BvhNode<T: Scalar> {
    pub left: Option<BvhNodeElement<T>>,
    pub right: Option<BvhNodeElement<T>>,
    pub bbox: AABB<T, 3>,
}

/// The primitives a child holds, left to right.
pub open spec fn spec_element_spheres<T: Scalar>(el: BvhNodeElement<T>) -> Seq<Sphere<T>>
    decreases el,
{
    match el {
        BvhNodeElement::Leaf(s) => seq![s],
        BvhNodeElement::Node(b) => spec_bvh_spheres(*b),
    }
}

/// The primitives a subtree holds, left to right.
pub open spec fn spec_bvh_spheres<T: Scalar>(node: BvhNode<T>) -> Seq<Sphere<T>>
    decreases node,
{
    (match node.left {
        Some(el) => spec_element_spheres(el),
        None => Seq::empty(),
    }) + (match node.right {
        Some(el) => spec_element_spheres(el),
        None => Seq::empty(),
    })
}

/// The hit a child reports: the geometry with the material of the surface
/// that was met.
pub open spec fn spec_element_hit<T: Scalar>(
    el: BvhNodeElement<T>,
    ray: Ray<T, 3>,
    range: Interval<T>,
) -> Option<(HitRecord<T>, Option<Material<T>>)>
    decreases el,
{
    match el {
        BvhNodeElement::Leaf(s) => match s.spec_sphere_hit(ray, range) {
            Some(hr) => Some((hr, s.material)),
            None => None,
        },
        BvhNodeElement::Node(b) => spec_bvh_hit(*b, ray, range),
    }
}

/// The hit a subtree reports: nothing when the ray misses the node's box;
/// otherwise the left child is asked over the whole range, the right child
/// over the range cut down to the left hit, and the nearer hit wins.
pub open spec fn spec_bvh_hit<T: Scalar>(
    node: BvhNode<T>,
    ray: Ray<T, 3>,
    range: Interval<T>,
) -> Option<(HitRecord<T>, Option<Material<T>>)>
    decreases node,
{
    if !spec_slab_hit(node.bbox.spec_intervals(), ray, range) {
        None
    } else {
        let lh = match node.left {
            Some(el) => spec_element_hit(el, ray, range),
            None => None,
        };
        let cut = match lh {
            Some(p) => p.0.t_value,
            None => range.max,
        };
        let rh = match node.right {
            Some(el) => spec_element_hit(el, ray, Interval { min: range.min, max: cut }),
            None => None,
        };
        match (lh, rh) {
            (None, None) => None,
            (None, Some(p)) => Some(p),
            (Some(p), None) => Some(p),
            (Some(l), Some(r)) => if l.0.t_value.sp_lt(r.0.t_value) {
                Some(l)
            } else {
                Some(r)
            },
        }
    }
}

/// The box one child spans: a leaf's own box, a subtree's node box.
pub open spec fn spec_element_box<T: Scalar>(el: BvhNodeElement<T>, i: int) -> Interval<T> {
    match el {
        BvhNodeElement::Leaf(s) => s.spec_bbox().spec_intervals()[i],
        BvhNodeElement::Node(b) => b.bbox.spec_intervals()[i],
    }
}

/// The box a node must hold, axis by axis: the union of its children's
/// boxes, folded up from the empty range.
pub open spec fn spec_node_box<T: Scalar>(node: BvhNode<T>, i: int) -> Interval<T> {
    let empty = Interval { min: T::sp_inf(), max: T::sp_neg_inf() };
    let with_left = match node.left {
        Some(el) => spec_combine(empty, spec_element_box(el, i)),
        None => empty,
    };
    match node.right {
        Some(el) => spec_combine(with_left, spec_element_box(el, i)),
        None => with_left,
    }
}

/// A well-formed hierarchy: every node's box is the union of its children's
/// boxes, all the way down, so the root box spans every primitive beneath
/// it.
pub open spec fn spec_bvh_wf<T: Scalar>(node: BvhNode<T>) -> bool
    decreases node,
{
    &&& node.bbox.spec_intervals().len() == 3
    &&& (forall|i: int|
        0 <= i < 3 ==> node.bbox.spec_intervals()[i] == #[trigger] spec_node_box(node, i))
    &&& (match node.left {
        Some(el) => spec_element_wf(el),
        None => true,
    })
    &&& (match node.right {
        Some(el) => spec_element_wf(el),
        None => true,
    })
}

/// Well-formedness of one child.
pub open spec fn spec_element_wf<T: Scalar>(el: BvhNodeElement<T>) -> bool
    decreases el,
{
    match el {
        BvhNodeElement::Leaf(s) => true,
        BvhNodeElement::Node(b) => spec_bvh_wf(*b),
    }
}

impl<T: Scalar> BvhNode<T> {
    /// Build the hierarchy over the given primitives: the leaves hold
    /// exactly the given primitives, and every node's box is the union of
    /// its children's.
    pub fn new(objects: Vec<Sphere<T>>) -> (r: BvhNode<T>)
        requires
            objects@.len() >= 1,
        ensures
            spec_bvh_spheres(r).to_multiset() == objects@.to_multiset(),
            spec_bvh_wf(r),
    {
        Self::split(objects)
    }

    /// The primitives reordered so that their boxes' lower ends along the
    /// axis come up in order wherever the coordinate order behaves; whatever
    /// the order does, the same primitives come back.
    fn sort_by_axis_min(objects: Vec<Sphere<T>>, axis: usize) -> (r: Vec<Sphere<T>>)
        requires
            axis < 3,
        ensures
            r@.to_multiset() == objects@.to_multiset(),
            r@.len() == objects@.len(),
    {
        let mut rest = objects;
        let mut out: Vec<Sphere<T>> = Vec::new();
        proof {
            broadcast use vstd::seq_lib::group_to_multiset_ensures;

            assert(out@.to_multiset().add(rest@.to_multiset()) =~= objects@.to_multiset());
        }
        while rest.len() > 0
            invariant
                axis < 3,
                out@.to_multiset().add(rest@.to_multiset()) == objects@.to_multiset(),
                out@.len() + rest@.len() == objects@.len(),
            decreases rest@.len(),
        {
            let mut best: usize = 0;
            let mut j: usize = 1;
            while j < rest.len()
                invariant
                    axis < 3,
                    best < rest@.len(),
                    rest@.len() > 0,
                    1 <= j <= rest@.len(),
                decreases rest@.len() - j,
            {
                if rest[j].bounding_box().axis_interval(axis).min.el_lt(
                    rest[best].bounding_box().axis_interval(axis).min,
                ) {
                    best = j;
                }
                j = j + 1;
            }
            let ghost prev_out = out@;
            let ghost prev_rest = rest@;
            let chosen = rest.remove(best);
            out.push(chosen);
            proof {
                broadcast use vstd::seq_lib::group_to_multiset_ensures;

                assert(rest@.to_multiset() =~= prev_rest.to_multiset().remove(chosen));
                assert(out@.to_multiset() =~= prev_out.to_multiset().insert(chosen));
                assert(prev_rest.to_multiset().count(chosen) > 0) by {
                    assert(prev_rest.contains(chosen));
                }
                assert(out@.to_multiset().add(rest@.to_multiset()) =~= prev_out.to_multiset().add(
                    prev_rest.to_multiset(),
                ));
            }
        }
        out
    }

    /// The recursive build: one primitive makes a leaf, two make a pair of
    /// leaves, and more are sorted along the widest axis of their union and
    /// split at the middle; each node's stored box is the union of its
    /// children's boxes.
    fn split(objects: Vec<Sphere<T>>) -> (r: BvhNode<T>)
        requires
            objects@.len() >= 1,
        ensures
            spec_bvh_spheres(r).to_multiset() == objects@.to_multiset(),
            spec_bvh_wf(r),
        decreases objects@.len(),
    {
        let ghost input = objects@;
        let mut objects = objects;

        // the union over the working slice, which picks the split axis
        let mut scratch = AABB::<T, 3>::empty();
        let mut k: usize = 0;
        while k < objects.len()
            invariant
                objects@ == input,
                0 <= k <= input.len(),
            decreases input.len() - k,
        {
            scratch.combine(objects[k].bounding_box());
            k = k + 1;
        }

        if objects.len() == 1 {
            let ghost before = objects@;
            let s = objects.pop().unwrap();
            let bbox = AABB::<T, 3>::empty().combine_new(s.bounding_box());
            let r = Self { left: Some(BvhNodeElement::Leaf(s)), right: None, bbox };
            proof {
                assert(spec_bvh_spheres(r) =~= before);
                assert(forall|i: int|
                    0 <= i < 3 ==> r.bbox.spec_intervals()[i] == #[trigger] spec_node_box(r, i));
            }
            return r;
        }
        if objects.len() == 2 {
            let ghost before = objects@;
            let second = objects.pop().unwrap();
            let first = objects.pop().unwrap();
            let bbox = AABB::<T, 3>::empty().combine_new(second.bounding_box()).combine_new(
                first.bounding_box(),
            );
            let r = Self {
                left: Some(BvhNodeElement::Leaf(second)),
                right: Some(BvhNodeElement::Leaf(first)),
                bbox,
            };
            proof {
                broadcast use vstd::seq_lib::group_to_multiset_ensures;

                assert(spec_bvh_spheres(r) =~= seq![second] + seq![first]);
                assert(before =~= seq![first] + seq![second]);
                vstd::seq_lib::lemma_seq_union_to_multiset_commutative(seq![first], seq![second]);
                assert(forall|i: int|
                    0 <= i < 3 ==> r.bbox.spec_intervals()[i] == #[trigger] spec_node_box(r, i));
            }
            return r;
        }

        let axis = scratch.longest_axis();
        let mut sorted = Self::sort_by_axis_min(objects, axis);
        let ghost sorted_view = sorted@;
        let mid = sorted.len() / 2;
        let right_vec = sorted.split_off(mid);
        let left_vec = sorted;
        let ghost left_view = left_vec@;
        let ghost right_view = right_vec@;

        let left = Self::split(left_vec);
        let right = Self::split(right_vec);
        let bbox = AABB::<T, 3>::empty().combine_new(left.bounding_box()).combine_new(
            right.bounding_box(),
        );

        let r = Self {
            left: Some(BvhNodeElement::Node(Box::new(left))),
            right: Some(BvhNodeElement::Node(Box::new(right))),
            bbox,
        };
        proof {
            assert(spec_bvh_spheres(r) =~= spec_bvh_spheres(left) + spec_bvh_spheres(right));
            vstd::seq_lib::lemma_multiset_commutative(
                spec_bvh_spheres(left),
                spec_bvh_spheres(right),
            );
            vstd::seq_lib::lemma_multiset_commutative(left_view, right_view);
            assert(left_view + right_view =~= sorted_view);
            assert(spec_bvh_spheres(r).to_multiset() =~= input.to_multiset());
            assert(forall|i: int|
                0 <= i < 3 ==> r.bbox.spec_intervals()[i] == #[trigger] spec_node_box(r, i));
        }
        r
    }

    /// Traverse the hierarchy for the nearest hit, as `spec_bvh_hit` says.
    pub fn hit(&self, ray: Ray<T, 3>, t_range: Interval<T>) -> (r: Option<HitResult<T>>)
        ensures
            r is Some <==> spec_bvh_hit(*self, ray, t_range) is Some,
            r matches Some(h) ==> Some((h.record, deref_material(h.material))) == spec_bvh_hit(
                *self,
                ray,
                t_range,
            ),
        decreases *self,
    {
        if !self.bbox.hit(ray, t_range) {
            return None;
        }

        let left_hit = match &self.left {
            Some(el) => Self::element_hit(el, ray, t_range),
            None => None,
        };

        let t_max = match &left_hit {
            Some(h) => h.record.t_value,
            None => t_range.max,
        };
        let new_t_range = Interval::new(t_range.min, t_max);

        let right_hit = match &self.right {
            Some(el) => Self::element_hit(el, ray, new_t_range),
            None => None,
        };

        match (left_hit, right_hit) {
            (None, None) => None,
            (None, Some(h)) => Some(h),
            (Some(h), None) => Some(h),
            (Some(l), Some(r)) => {
                if l.record.t_value.el_lt(r.record.t_value) {
                    Some(l)
                } else {
                    Some(r)
                }
            },
        }
    }

    /// One child's contribution to the traversal.
    fn element_hit<'a>(el: &'a BvhNodeElement<T>, ray: Ray<T, 3>, range: Interval<T>) -> (r:
        Option<HitResult<'a, T>>)
        ensures
            r is Some <==> spec_element_hit(*el, ray, range) is Some,
            r matches Some(h) ==> Some((h.record, deref_material(h.material))) == spec_element_hit(
                *el,
                ray,
                range,
            ),
        decreases *el,
    {
        match el {
            BvhNodeElement::Leaf(s) => s.hit(ray, range),
            BvhNodeElement::Node(b) => b.hit(ray, range),
        }
    }

    pub fn bounding_box(&self) -> (r: &AABB<T, 3>)
        ensures
            *r == self.bbox,
    {
        &self.bbox
    }
}

} // verus!
