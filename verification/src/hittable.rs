use vstd::prelude::*;

verus! {

use crate::aabb::AABB;
use crate::bvh::{spec_bvh_hit, BvhNode};
use crate::interval::{spec_combine, Interval};
use crate::material::Material;
use crate::ray::{spec_ray_at, Ray};
use crate::vec::{
    lemma_vec2_of_seq, lemma_vec3_of_seq, seq_add, seq_div_scalar, seq_mul_scalar, seq_neg,
    seq_sub, spec_dot_prefix, spec_v2, vec_of_seq3, Scalar, VecElement, Vector,
};

/// The geometry of a ray-surface intersection: where, how far along the ray,
/// the surface coordinates, and the normal flipped against the ray, with
/// `front_face` recording whether the ray met the surface from outside.
#[derive(Clone, Copy, Debug)]
pub struct HitRecord<T: VecElement> {
    pub point: Vector<T, 3>,
    pub normal: Vector<T, 3>,
    pub tex: Vector<T, 2>,
    pub t_value: T,
    pub front_face: bool,
}

/// The hit record built from an outward normal: the stored normal is the
/// outward one if the ray runs against it, its negation otherwise.
pub open spec fn spec_hit_record<T: VecElement>(
    ray: Ray<T, 3>,
    out_normal: Seq<T>,
    point: Seq<T>,
    tex: Vector<T, 2>,
    t_value: T,
) -> HitRecord<T> {
    let ff = spec_dot_prefix(ray.direction.data@, out_normal, 3).sp_lt(T::sp_zero());
    HitRecord {
        point: vec_of_seq3(point),
        normal: vec_of_seq3(
            if ff {
                out_normal
            } else {
                seq_neg(out_normal)
            },
        ),
        tex: tex,
        t_value: t_value,
        front_face: ff,
    }
}

impl<T: VecElement> HitRecord<T> {
    pub fn new(
        ray: Ray<T, 3>,
        out_normal: Vector<T, 3>,
        point: Vector<T, 3>,
        tex_hit: Vector<T, 2>,
        t_value: T,
    ) -> (r: HitRecord<T>)
        ensures
            r == spec_hit_record(ray, out_normal.data@, point.data@, tex_hit, t_value),
    {
        let front_face = ray.direction.dot(out_normal).el_lt(T::el_zero());
        let normal = if front_face {
            out_normal
        } else {
            core::ops::Neg::neg(out_normal)
        };
        proof {
            lemma_vec3_of_seq(point, point.data@);
            if front_face {
                lemma_vec3_of_seq(normal, out_normal.data@);
            } else {
                assert(normal.data@ =~= seq_neg(out_normal.data@));
                lemma_vec3_of_seq(normal, seq_neg(out_normal.data@));
            }
        }
        Self { point, normal, tex: tex_hit, t_value, front_face }
    }
}

/// A hit together with the material bound to the surface, if it has one.
pub struct HitResult<'a, T: Scalar> {
    pub record: HitRecord<T>,
    pub material: Option<&'a Material<T>>,
}

/// A sphere, optionally moving linearly over the exposure: its center at
/// time `t` is `center + center_vec * t`.
pub struct Sphere<T: Scalar> {
    pub center: Vector<T, 3>,
    pub radius: T,
    pub material: Option<Material<T>>,
    pub bbox: AABB<T, 3>,
    pub is_moving: bool,
    pub center_vec: Vector<T, 3>,
}

impl<T: Scalar> Sphere<T> {
    /// The box the sphere stays inside over the whole exposure.
    pub open spec fn spec_bbox(self) -> AABB<T, 3> {
        self.bbox
    }

    /// Whether the sphere moves over the exposure.
    pub open spec fn spec_is_moving(self) -> bool {
        self.is_moving
    }

    /// The translation the center crosses from the start to the end of the
    /// exposure.
    pub open spec fn spec_center_vec(self) -> Vector<T, 3> {
        self.center_vec
    }

    /// The coordinates of the center at the given moment.
    pub open spec fn spec_center_at(self, time: T) -> Seq<T> {
        if self.spec_is_moving() {
            seq_add(self.center.data@, seq_mul_scalar(self.spec_center_vec().data@, time))
        } else {
            self.center.data@
        }
    }

    /// Half the `b` coefficient of the quadratic a ray makes with the
    /// sphere: the offset from the center against the direction.
    pub open spec fn spec_b_half(self, ray: Ray<T, 3>) -> T {
        spec_dot_prefix(
            seq_sub(ray.origin.data@, self.spec_center_at(ray.time)),
            ray.direction.data@,
            3,
        )
    }

    /// The constant coefficient: the squared offset less the squared radius.
    pub open spec fn spec_c_coeff(self, ray: Ray<T, 3>) -> T {
        let oc = seq_sub(ray.origin.data@, self.spec_center_at(ray.time));
        spec_dot_prefix(oc, oc, 3).sp_sub(self.radius.sp_mul(self.radius))
    }

    /// The quarter discriminant `b_half^2 - a * c`.
    pub open spec fn spec_discriminant(self, ray: Ray<T, 3>) -> T {
        self.spec_b_half(ray).sp_mul(self.spec_b_half(ray)).sp_sub(
            ray.direction.spec_length_squared().sp_mul(self.spec_c_coeff(ray)),
        )
    }

    /// The near root of the quadratic.
    pub open spec fn spec_root1(self, ray: Ray<T, 3>) -> T {
        self.spec_b_half(ray).sp_neg().sp_sub(self.spec_discriminant(ray).sp_sqrt()).sp_div(
            ray.direction.spec_length_squared(),
        )
    }

    /// The far root of the quadratic.
    pub open spec fn spec_root2(self, ray: Ray<T, 3>) -> T {
        self.spec_b_half(ray).sp_neg().sp_add(self.spec_discriminant(ray).sp_sqrt()).sp_div(
            ray.direction.spec_length_squared(),
        )
    }

    /// Whether the ray hits: the discriminant is not negative and a root
    /// lies strictly inside the range.
    pub open spec fn spec_hits(self, ray: Ray<T, 3>, range: Interval<T>) -> bool {
        !self.spec_discriminant(ray).sp_lt(T::sp_zero()) && (range.spec_surrounds(
            self.spec_root1(ray),
        ) || range.spec_surrounds(self.spec_root2(ray)))
    }

    /// The root the hit reports: the near one where the range admits it,
    /// else the far one.
    pub open spec fn spec_root(self, ray: Ray<T, 3>, range: Interval<T>) -> T {
        if range.spec_surrounds(self.spec_root1(ray)) {
            self.spec_root1(ray)
        } else {
            self.spec_root2(ray)
        }
    }

    /// The full hit: the record at the reported root, whose outward normal
    /// is the offset from the center at the ray's time, scaled by the
    /// radius.
    pub open spec fn spec_sphere_hit(self, ray: Ray<T, 3>, range: Interval<T>) -> Option<
        HitRecord<T>,
    > {
        if !self.spec_hits(ray, range) {
            None
        } else {
            let root = self.spec_root(ray, range);
            let point = spec_ray_at(ray, root);
            let out_normal = seq_div_scalar(
                seq_sub(point, self.spec_center_at(ray.time)),
                self.radius,
            );
            Some(
                spec_hit_record(ray, out_normal, point, spec_v2(T::sp_zero(), T::sp_zero()), root),
            )
        }
    }

    pub fn new(center: Vector<T, 3>, radius: T, material: Option<Material<T>>) -> (r: Self)
        ensures
            r.center == center,
            r.radius == radius,
            (match (r.material, material) {
                (Some(a), Some(b)) => a == b,
                (None, None) => true,
                _ => false,
            }),
            !r.spec_is_moving(),
            r.spec_bbox().spec_intervals().len() == 3,
            forall|i: int|
                0 <= i < 3 ==> #[trigger] r.spec_bbox().spec_intervals()[i] == (Interval {
                    min: center.data@[i].sp_sub(radius),
                    max: center.data@[i].sp_add(radius),
                }),
    {
        let bbox = AABB::new(
            [
                Interval::new(center.data[0].el_sub(radius), center.data[0].el_add(radius)),
                Interval::new(center.data[1].el_sub(radius), center.data[1].el_add(radius)),
                Interval::new(center.data[2].el_sub(radius), center.data[2].el_add(radius)),
            ],
        );
        Self {
            center,
            radius,
            material,
            bbox,
            is_moving: false,
            center_vec: Vector::new_one(T::el_zero()),
        }
    }

    /// A sphere moving from `center1` at the start of the exposure to
    /// `center2` at its end; its box is the union of the boxes at both ends.
    pub fn new_moving(
        center1: Vector<T, 3>,
        center2: Vector<T, 3>,
        radius: T,
        material: Option<Material<T>>,
    ) -> (r: Self)
        ensures
            r.center == center1,
            r.radius == radius,
            (match (r.material, material) {
                (Some(a), Some(b)) => a == b,
                (None, None) => true,
                _ => false,
            }),
            r.spec_is_moving(),
            r.spec_center_vec().data@ == seq_sub(center2.data@, center1.data@),
            r.spec_bbox().spec_intervals().len() == 3,
            forall|i: int|
                0 <= i < 3 ==> #[trigger] r.spec_bbox().spec_intervals()[i] == spec_combine(
                    Interval {
                        min: center1.data@[i].sp_sub(radius),
                        max: center1.data@[i].sp_add(radius),
                    },
                    Interval {
                        min: center2.data@[i].sp_sub(radius),
                        max: center2.data@[i].sp_add(radius),
                    },
                ),
    {
        let bbox1 = AABB::new(
            [
                Interval::new(center1.data[0].el_sub(radius), center1.data[0].el_add(radius)),
                Interval::new(center1.data[1].el_sub(radius), center1.data[1].el_add(radius)),
                Interval::new(center1.data[2].el_sub(radius), center1.data[2].el_add(radius)),
            ],
        );
        let bbox2 = AABB::new(
            [
                Interval::new(center2.data[0].el_sub(radius), center2.data[0].el_add(radius)),
                Interval::new(center2.data[1].el_sub(radius), center2.data[1].el_add(radius)),
                Interval::new(center2.data[2].el_sub(radius), center2.data[2].el_add(radius)),
            ],
        );
        let r = Self {
            center: center1,
            radius,
            material,
            bbox: bbox1.combine_new(&bbox2),
            is_moving: true,
            center_vec: center2 - center1,
        };
        proof {
            assert(r.center_vec.data@ =~= seq_sub(center2.data@, center1.data@));
        }
        r
    }

    /// The center the ray actually meets: displaced when the sphere moves.
    fn sphere_center(&self, time: T) -> (r: Vector<T, 3>)
        ensures
            r.data@ == self.spec_center_at(time),
    {
        if self.is_moving {
            let r = self.center + self.center_vec * time;
            proof {
                assert(r.data@ =~= seq_add(
                    self.center.data@,
                    seq_mul_scalar(self.center_vec.data@, time),
                ));
            }
            r
        } else {
            self.center
        }
    }

    pub fn get_material(&self) -> (r: Option<&Material<T>>)
        ensures
            (match (r, self.material) {
                (Some(m), Some(n)) => *m == n,
                (None, None) => true,
                _ => false,
            }),
    {
        self.material.as_ref()
    }

    pub fn bounding_box(&self) -> (r: &AABB<T, 3>)
        ensures
            *r == self.spec_bbox(),
    {
        &self.bbox
    }

    /// The quadratic-formula intersection: the record of `spec_sphere_hit`,
    /// with the sphere's material attached.
    pub fn hit(&self, ray: Ray<T, 3>, t_range: Interval<T>) -> (r: Option<HitResult<T>>)
        ensures
            r is Some <==> self.spec_hits(ray, t_range),
            r matches Some(h) ==> {
                &&& Some(h.record) == self.spec_sphere_hit(ray, t_range)
                &&& (match (h.material, self.material) {
                    (Some(m), Some(n)) => *m == n,
                    (None, None) => true,
                    _ => false,
                })
            },
    {
        let center = self.sphere_center(ray.time);
        let oc = ray.origin - center;
        let a = ray.direction.length_squared();
        let b_half = oc.dot(ray.direction);
        let c = oc.length_squared().el_sub(self.radius.el_mul(self.radius));

        proof {
            assert(oc.data@ =~= seq_sub(ray.origin.data@, self.spec_center_at(ray.time)));
        }

        let d = b_half.el_mul(b_half).el_sub(a.el_mul(c));
        if d.el_lt(T::el_zero()) {
            return None;
        }

        let d_sqrt = d.el_sqrt();
        let root1 = b_half.el_neg().el_sub(d_sqrt).el_div(a);
        let root2 = b_half.el_neg().el_add(d_sqrt).el_div(a);
        let s1 = t_range.surrounds(root1);
        let s2 = t_range.surrounds(root2);
        if !s1 && !s2 {
            return None;
        }
        let root = if s1 {
            root1
        } else {
            root2
        };

        let point = ray.at(root);
        let out_normal = (point - center) / self.radius;
        proof {
            assert(out_normal.data@ =~= seq_div_scalar(
                seq_sub(spec_ray_at(ray, root), self.spec_center_at(ray.time)),
                self.radius,
            ));
        }
        let tex = Vector::new([T::el_zero(), T::el_zero()]);
        proof {
            lemma_vec2_of_seq(tex, tex.data@);
            assert(crate::vec::vec_of_seq2(tex.data@) == spec_v2(T::sp_zero(), T::sp_zero()));
        }

        Some(
            HitResult {
                record: HitRecord::new(ray, out_normal, point, tex, root),
                material: self.get_material(),
            },
        )
    }
}

impl<T: Scalar> Default for Sphere<T> {
    /// A unit sphere at the origin with no material and an empty box.
    fn default() -> (r: Self)
        ensures
            r.radius == T::sp_one(),
            r.material is None,
            !r.spec_is_moving(),
    {
        Self {
            center: Vector::new_one(T::el_zero()),
            radius: T::el_one(),
            material: None,
            bbox: AABB::empty(),
            is_moving: false,
            center_vec: Vector::new_one(T::el_zero()),
        }
    }
}

/// The things a scene can hold: primitives and whole acceleration trees.
pub enum SceneObject<T: Scalar> {
    Sphere(Sphere<T>),
    Bvh(BvhNode<T>),
}

/// A borrowed material, taken by value for the specifications.
pub open spec fn deref_material<T: Scalar>(m: Option<&Material<T>>) -> Option<Material<T>> {
    match m {
        Some(r) => Some(*r),
        None => None,
    }
}

/// The hit an object reports, by its variant's own intersection function:
/// the geometry together with the material of the surface that was met.
pub open spec fn spec_object_hit<T: Scalar>(
    obj: SceneObject<T>,
    ray: Ray<T, 3>,
    range: Interval<T>,
) -> Option<(HitRecord<T>, Option<Material<T>>)> {
    match obj {
        SceneObject::Sphere(s) => match s.spec_sphere_hit(ray, range) {
            Some(hr) => Some((hr, s.material)),
            None => None,
        },
        SceneObject::Bvh(b) => spec_bvh_hit(b, ray, range),
    }
}

impl<T: Scalar> SceneObject<T> {
    pub fn hit(&self, ray: Ray<T, 3>, t_range: Interval<T>) -> (r: Option<HitResult<T>>)
        ensures
            r is Some <==> spec_object_hit(*self, ray, t_range) is Some,
            r matches Some(h) ==> Some((h.record, deref_material(h.material))) == spec_object_hit(
                *self,
                ray,
                t_range,
            ),
    {
        match self {
            SceneObject::Sphere(s) => s.hit(ray, t_range),
            SceneObject::Bvh(b) => b.hit(ray, t_range),
        }
    }

    pub fn bounding_box(&self) -> (r: &AABB<T, 3>)
        ensures
            *r == (match *self {
                SceneObject::Sphere(s) => s.spec_bbox(),
                SceneObject::Bvh(b) => b.bbox,
            }),
    {
        match self {
            SceneObject::Sphere(s) => s.bounding_box(),
            SceneObject::Bvh(b) => b.bounding_box(),
        }
    }
}

/// The linear scan over the first `n` objects: each object is asked about
/// the range narrowed to the closest hit so far, and the latest taker wins,
/// geometry and material together.
pub open spec fn spec_list_hit<T: Scalar>(
    objects: Seq<SceneObject<T>>,
    ray: Ray<T, 3>,
    range: Interval<T>,
    n: int,
) -> Option<(HitRecord<T>, Option<Material<T>>)>
    decreases n,
{
    if n <= 0 {
        None
    } else {
        let prev = spec_list_hit(objects, ray, range, n - 1);
        let cur_max = match prev {
            Some(p) => p.0.t_value,
            None => range.max,
        };
        match spec_object_hit(objects[n - 1], ray, Interval { min: range.min, max: cur_max }) {
            Some(p) => Some(p),
            None => prev,
        }
    }
}

/// An unordered collection of scene objects; its intersection is the linear
/// scan, its box the union of the members' boxes.
pub struct HittableList<T: Scalar> {
    objects: Vec<SceneObject<T>>,
    bbox: AABB<T, 3>,
}

impl<T: Scalar> HittableList<T> {
    /// The objects the list holds.
    pub closed spec fn spec_objects(self) -> Seq<SceneObject<T>> {
        self.objects@
    }

    /// The union box over the members.
    pub closed spec fn spec_bbox(self) -> AABB<T, 3> {
        self.bbox
    }

    pub fn new() -> (r: Self)
        ensures
            r.spec_objects() == Seq::<SceneObject<T>>::empty(),
            r.spec_bbox().spec_intervals() =~= Seq::new(
                3,
                |i: int| Interval { min: T::sp_inf(), max: T::sp_neg_inf() },
            ),
    {
        let r = Self { objects: Vec::new(), bbox: AABB::empty() };
        proof {
            assert(r.spec_objects() =~= Seq::<SceneObject<T>>::empty());
        }
        r
    }

    pub fn add(&mut self, object: SceneObject<T>)
        ensures
            final(self).spec_objects() == old(self).spec_objects().push(object),
            final(self).spec_bbox().spec_intervals().len() == 3,
            forall|i: int|
                0 <= i < 3 ==> #[trigger] final(self).spec_bbox().spec_intervals()[i]
                    == spec_combine(
                    old(self).spec_bbox().spec_intervals()[i],
                    (match object {
                        SceneObject::Sphere(s) => s.spec_bbox(),
                        SceneObject::Bvh(b) => b.bbox,
                    }).spec_intervals()[i],
                ),
    {
        self.bbox.combine(object.bounding_box());
        self.objects.push(object);
    }

    /// The linear scan: the closest member hit strictly inside the range.
    pub fn hit(&self, ray: Ray<T, 3>, t_range: Interval<T>) -> (r: Option<HitResult<T>>)
        ensures
            r is Some <==> spec_list_hit(
                self.spec_objects(),
                ray,
                t_range,
                self.spec_objects().len() as int,
            ) is Some,
            r matches Some(h) ==> Some((h.record, deref_material(h.material))) == spec_list_hit(
                self.spec_objects(),
                ray,
                t_range,
                self.spec_objects().len() as int,
            ),
    {
        let mut current_hit: Option<HitResult<T>> = None;
        let mut t_closest = t_range.max;

        let mut i: usize = 0;
        while i < self.objects.len()
            invariant
                0 <= i <= self.objects.len(),
                (match (current_hit, spec_list_hit(self.objects@, ray, t_range, i as int)) {
                    (Some(h), Some(sh)) => h.record == sh.0 && deref_material(h.material) == sh.1
                        && t_closest == sh.0.t_value,
                    (None, None) => t_closest == t_range.max,
                    _ => false,
                }),
            decreases self.objects.len() - i,
        {
            if let Some(hit) = self.objects[i].hit(ray, Interval::new(t_range.min, t_closest)) {
                t_closest = hit.record.t_value;
                current_hit = Some(hit);
            }
            i = i + 1;
        }

        current_hit
    }

    pub fn bounding_box(&self) -> (r: &AABB<T, 3>)
        ensures
            *r == self.spec_bbox(),
    {
        &self.bbox
    }
}

/// Whether a collection holds primitives alone.
pub open spec fn all_spheres<T: Scalar>(objects: Seq<SceneObject<T>>) -> bool {
    forall|k: int| 0 <= k < objects.len() ==> objects[k] is Sphere
}

/// The primitive at one slot of such a collection.
pub open spec fn sphere_at<T: Scalar>(objects: Seq<SceneObject<T>>, k: int) -> Sphere<T> {
    objects[k]->Sphere_0
}

/// Whether every primitive's near root comes no later than its far root,
/// as the square root of a nonnegative discriminant guarantees over the
/// real numbers.
pub open spec fn roots_ordered<T: Scalar>(objects: Seq<SceneObject<T>>, ray: Ray<T, 3>) -> bool {
    forall|k: int|
        0 <= k < objects.len() ==> !(#[trigger] sphere_at(objects, k).spec_root2(ray)).sp_lt(
            sphere_at(objects, k).spec_root1(ray),
        )
}

/// Narrowing the far end of the range to `cut` keeps a primitive's hit
/// exactly when its reported root beats the cut, and then reports the same
/// root: under a total coordinate order and ordered roots, the narrowed
/// question answers the original one.
proof fn lemma_sphere_hit_narrowing<T: Scalar>(s: Sphere<T>, ray: Ray<T, 3>, range: Interval<T>, cut: T)
    requires
        crate::interval::order_laws::<T>(),
        !s.spec_root2(ray).sp_lt(s.spec_root1(ray)),
        cut.sp_le(range.max),
    ensures
        ({
            let narrow = Interval { min: range.min, max: cut };
            &&& (s.spec_hits(ray, narrow) <==> s.spec_hits(ray, range) && s.spec_root(
                ray,
                range,
            ).sp_lt(cut))
            &&& (s.spec_hits(ray, narrow) ==> s.spec_root(ray, narrow) == s.spec_root(ray, range))
        }),
{
    let narrow = Interval { min: range.min, max: cut };
    let r1 = s.spec_root1(ray);
    let r2 = s.spec_root2(ray);
    if s.spec_hits(ray, narrow) {
        assert(s.spec_hits(ray, range) && s.spec_root(ray, range).sp_lt(cut) && s.spec_root(
            ray,
            narrow,
        ) == s.spec_root(ray, range)) by {
            if narrow.spec_surrounds(r1) {
                assert(range.spec_surrounds(r1));
            } else {
                assert(narrow.spec_surrounds(r2));
                assert(range.spec_surrounds(r2));
                // the near root cannot sit in the wide range either: it
                // would have to sit below the far root and above the cut
                if range.spec_surrounds(r1) {
                    assert(r1.sp_lt(cut) || !r1.sp_lt(cut));
                    if r1.sp_lt(cut) {
                        assert(narrow.spec_surrounds(r1));
                    } else {
                        assert(r2.sp_lt(cut));
                        assert(r2.sp_lt(r1));
                    }
                }
            }
        }
    }
    if s.spec_hits(ray, range) && s.spec_root(ray, range).sp_lt(cut) {
        assert(s.spec_hits(ray, narrow)) by {
            if range.spec_surrounds(r1) {
                assert(narrow.spec_surrounds(r1));
            } else {
                assert(range.spec_surrounds(r2));
                assert(narrow.spec_surrounds(r2));
            }
        }
    }
}

/// The scan returns the nearest member hit: over primitives whose roots are
/// ordered and a total coordinate order, the scan answers exactly when some
/// member hits the full range, its reported root beats the range's far end,
/// it is the hit of one of the members, and no member's reported root comes
/// before it.
pub proof fn lemma_list_hit_minimal<T: Scalar>(
    objects: Seq<SceneObject<T>>,
    ray: Ray<T, 3>,
    range: Interval<T>,
    n: int,
)
    requires
        crate::interval::order_laws::<T>(),
        all_spheres(objects),
        roots_ordered(objects, ray),
        0 <= n <= objects.len(),
    ensures
        (spec_list_hit(objects, ray, range, n) is Some <==> exists|k: int|
            0 <= k < n && (#[trigger] sphere_at(objects, k).spec_hits(ray, range))),
        spec_list_hit(objects, ray, range, n) matches Some(p) ==> {
            &&& p.0.t_value.sp_lt(range.max)
            &&& exists|k: int|
                0 <= k < n && (#[trigger] sphere_at(objects, k).spec_hits(ray, range))
                    && Some(p.0) == sphere_at(objects, k).spec_sphere_hit(ray, range)
                    && p.1 == sphere_at(objects, k).material
            &&& forall|k: int|
                0 <= k < n && (#[trigger] sphere_at(objects, k).spec_hits(ray, range))
                    ==> !sphere_at(objects, k).spec_root(ray, range).sp_lt(p.0.t_value)
        },
    decreases n,
{
    if n > 0 {
        lemma_list_hit_minimal(objects, ray, range, n - 1);
        let prev = spec_list_hit(objects, ray, range, n - 1);
        let cut = match prev {
            Some(p) => p.0.t_value,
            None => range.max,
        };
        assert(cut.sp_le(range.max)) by {
            match prev {
                Some(p) => {
                    assert(p.0.t_value.sp_lt(range.max));
                },
                None => {},
            }
        }
        let s = sphere_at(objects, n - 1);
        lemma_sphere_hit_narrowing(s, ray, range, cut);
        let narrow = Interval { min: range.min, max: cut };
        assert(spec_object_hit(objects[n - 1], ray, narrow) == (match s.spec_sphere_hit(
            ray,
            narrow,
        ) {
            Some(hr) => Some((hr, s.material)),
            None => None,
        }));
        if s.spec_hits(ray, narrow) {
            let h = s.spec_sphere_hit(ray, narrow)->Some_0;
            assert(h.t_value == s.spec_root(ray, narrow));
            assert(s.spec_root(ray, narrow) == s.spec_root(ray, range));
            assert(s.spec_sphere_hit(ray, narrow) == s.spec_sphere_hit(ray, range));
            assert(h.t_value.sp_lt(range.max)) by {
                match prev {
                    Some(p) => {
                        assert(h.t_value.sp_lt(p.0.t_value));
                        assert(p.0.t_value.sp_lt(range.max));
                    },
                    None => {},
                }
            }
            assert forall|k: int|
                0 <= k < n && (#[trigger] sphere_at(objects, k).spec_hits(ray, range))
                    implies !sphere_at(objects, k).spec_root(ray, range).sp_lt(h.t_value) by {
                if k < n - 1 {
                    match prev {
                        Some(p) => {
                            assert(!sphere_at(objects, k).spec_root(ray, range).sp_lt(
                                p.0.t_value,
                            ));
                            assert(h.t_value.sp_lt(p.0.t_value));
                        },
                        None => {},
                    }
                }
            }
        } else {
            match prev {
                Some(p) => {
                    assert(spec_list_hit(objects, ray, range, n) == prev);
                    assert forall|k: int|
                        0 <= k < n && (#[trigger] sphere_at(objects, k).spec_hits(ray, range))
                            implies !sphere_at(objects, k).spec_root(ray, range).sp_lt(
                        p.0.t_value,
                    ) by {
                        if k == n - 1 {
                            assert(!s.spec_root(ray, range).sp_lt(cut));
                        }
                    }
                },
                None => {
                    assert forall|k: int| 0 <= k < n implies !(#[trigger] sphere_at(
                        objects,
                        k,
                    ).spec_hits(ray, range)) by {
                        if k == n - 1 {
                            if s.spec_hits(ray, range) {
                                assert(range.spec_surrounds(s.spec_root(ray, range)));
                                assert(s.spec_root(ray, range).sp_lt(cut));
                            }
                        }
                    }
                },
            }
        }
    }
}

} // verus!
