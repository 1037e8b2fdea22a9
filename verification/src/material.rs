use vstd::prelude::*;

verus! {

use crate::color::Color;
use crate::hittable::HitRecord;
use crate::ray::Ray;
use crate::texture::{spec_texture_value, SolidColor, Texture};
use crate::util::{spec_min, RandomSource};
use crate::vec::{
    par_len_of, random_in_unit_sphere, random_unit_vector, reflect, refract, seq_add,
    seq_mul_scalar, seq_neg, spec_dot_prefix, spec_reflect, spec_refract_perp, Scalar, Vector,
};

/// What a successful scatter hands back: the outgoing ray and the color it
/// is filtered by.
pub struct ScatterResult<T: Scalar> {
    pub ray: Ray<T, 3>,
    pub attenuation: Color<T>,
}

/// An ideally diffuse surface.
pub struct Lambertian<T: Scalar> {
    albedo: Texture<T>,
}

/// The direction a diffuse scatter takes for the unit sample `u`: the
/// outward normal nudged by the sample, or the normal alone when that sum is
/// negligibly small in every coordinate.
pub open spec fn spec_lambertian_dir<T: Scalar>(normal: Vector<T, 3>, u: Vector<T, 3>) -> Seq<T> {
    let sum = seq_add(normal.data@, u.data@);
    if forall|i: int| 0 <= i < 3 ==> (#[trigger] sum[i]).sp_near_zero() {
        normal.data@
    } else {
        sum
    }
}

impl<T: Scalar> Lambertian<T> {
    /// The texture the surface is tinted by.
    pub closed spec fn spec_albedo(self) -> Texture<T> {
        self.albedo
    }

    pub fn new(albedo: Color<T>) -> (r: Self)
        ensures
            r.spec_albedo() matches Texture::Solid(sc) && sc.spec_albedo() == albedo,
    {
        Self { albedo: Texture::Solid(SolidColor::new(albedo)) }
    }

    pub fn with_texture(texture: Texture<T>) -> (r: Self)
        ensures
            r.spec_albedo() == texture,
    {
        Self { albedo: texture }
    }

    /// Diffuse scattering: always succeeds; the new ray starts at the hit
    /// point, keeps the incoming time, and leaves along the normal nudged by
    /// a unit sample.
    pub fn scatter<S: RandomSource<T>>(
        &self,
        ray: Ray<T, 3>,
        hit_record: HitRecord<T>,
        source: &mut S,
    ) -> (r: Option<ScatterResult<T>>)
        ensures
            r is Some,
            r matches Some(s) ==> {
                &&& s.ray.origin == hit_record.point
                &&& s.ray.time == ray.time
                &&& s.attenuation == spec_texture_value(
                    self.spec_albedo(),
                    hit_record.tex,
                    hit_record.point,
                )
                &&& exists|u: Vector<T, 3>|
                    s.ray.direction.data@ == #[trigger] spec_lambertian_dir(hit_record.normal, u)
            },
    {
        let u = random_unit_vector::<T, 3, S>(source);
        let mut scatter_direction = hit_record.normal + u;
        if scatter_direction.near_zero() {
            scatter_direction = hit_record.normal;
        }
        proof {
            assert(scatter_direction.data@ == spec_lambertian_dir(hit_record.normal, u));
        }
        Some(
            ScatterResult {
                ray: Ray { origin: hit_record.point, direction: scatter_direction, time: ray.time },
                attenuation: self.albedo.value(hit_record.tex, hit_record.point),
            },
        )
    }
}

/// A reflective surface with an optional fuzz around the mirror direction.
pub struct Metal<T: Scalar> {
    pub albedo: Color<T>,
    pub fuzz: T,
}

/// The direction a metallic scatter takes for the ball sample `u`: the
/// mirror reflection of the normalized incoming direction, blurred by the
/// sample scaled with the fuzz.
pub open spec fn spec_metal_dir<T: Scalar>(
    ray: Ray<T, 3>,
    normal: Vector<T, 3>,
    fuzz: T,
    u: Vector<T, 3>,
) -> Seq<T> {
    let unit = crate::vec::seq_div_scalar(ray.direction.data@, ray.direction.spec_length());
    seq_add(
        spec_reflect(crate::vec::vec_of_seq3(unit), normal),
        seq_mul_scalar(u.data@, fuzz),
    )
}

impl<T: Scalar> Metal<T> {
    pub fn new(albedo: Color<T>, fuzz: T) -> (r: Self)
        ensures
            r.albedo == albedo,
            r.fuzz == fuzz,
    {
        Self { albedo, fuzz }
    }

    /// Metallic scattering: the blurred reflection leaves from the hit
    /// point, and the surface absorbs the ray unless that direction points
    /// out of it.
    pub fn scatter<S: RandomSource<T>>(
        &self,
        ray: Ray<T, 3>,
        hit_record: HitRecord<T>,
        source: &mut S,
    ) -> (r: Option<ScatterResult<T>>)
        ensures
            exists|u: Vector<T, 3>|
                {
                    let dir = #[trigger] spec_metal_dir(ray, hit_record.normal, self.fuzz, u);
                    let outward = T::sp_zero().sp_lt(
                        spec_dot_prefix(dir, hit_record.normal.data@, 3),
                    );
                    &&& r is Some <==> outward
                    &&& r matches Some(s) ==> {
                        &&& s.ray.origin == hit_record.point
                        &&& s.ray.time == ray.time
                        &&& s.ray.direction.data@ == dir
                        &&& s.attenuation == self.albedo
                    }
                },
    {
        let unit = ray.direction.unit_vector();
        let ball = random_in_unit_sphere::<T, 3, S>(source);
        let reflected = reflect(unit, hit_record.normal) + ball * self.fuzz;
        proof {
            lemma_unit_of_dir(ray, unit);
            assert(reflected.data@ == spec_metal_dir(ray, hit_record.normal, self.fuzz, ball));
        }
        if T::el_zero().el_lt(reflected.dot(hit_record.normal)) {
            Some(
                ScatterResult {
                    ray: Ray { origin: hit_record.point, direction: reflected, time: ray.time },
                    attenuation: self.albedo,
                },
            )
        } else {
            None
        }
    }
}

/// The normalized coordinates of a ray's direction are the direction of the
/// vector they form.
proof fn lemma_unit_of_dir<T: Scalar>(ray: Ray<T, 3>, unit: Vector<T, 3>)
    requires
        unit.data@ == crate::vec::seq_div_scalar(
            ray.direction.data@,
            ray.direction.spec_length(),
        ),
    ensures
        unit == crate::vec::vec_of_seq3(
            crate::vec::seq_div_scalar(ray.direction.data@, ray.direction.spec_length()),
        ),
{
    crate::vec::lemma_vec3_of_seq(
        unit,
        crate::vec::seq_div_scalar(ray.direction.data@, ray.direction.spec_length()),
    );
}

/// A transparent surface with the given index of refraction.
pub struct Dielectric<T: Scalar> {
    pub refractive_index: T,
}

/// Schlick's approximation of reflectance: with
/// `r0 = ((1 - index) / (1 + index))^2`, the value
/// `r0 + (1 - r0) * (1 - cosine)^5`, the fifth power taken by repeated
/// multiplication.
pub open spec fn spec_reflectance<T: Scalar>(cosine: T, refractive_index: T) -> T {
    let r0_base = T::sp_one().sp_sub(refractive_index).sp_div(
        T::sp_one().sp_add(refractive_index),
    );
    let r0 = r0_base.sp_mul(r0_base);
    let f = T::sp_one().sp_sub(cosine);
    let f5 = f.sp_mul(f).sp_mul(f).sp_mul(f).sp_mul(f);
    r0.sp_add(T::sp_one().sp_sub(r0).sp_mul(f5))
}

/// The ratio of refractive indices a refraction crosses: the reciprocal of
/// the index when the ray meets the front face, the index itself inside.
pub open spec fn spec_refraction_ratio<T: Scalar>(index: T, front_face: bool) -> T {
    if front_face {
        T::sp_one().sp_div(index)
    } else {
        index
    }
}

/// The cosine the dielectric works with: the reversed unit direction against
/// the normal, capped at one.
pub open spec fn spec_dielectric_cos<T: Scalar>(unit: Seq<T>, normal: Vector<T, 3>) -> T {
    spec_min(spec_dot_prefix(seq_neg(unit), normal.data@, 3), T::sp_one())
}

/// Whether a dielectric reflects instead of refracting: at total internal
/// reflection, or when Schlick reflectance beats the uniform draw `x`.
pub open spec fn spec_cannot_refract<T: Scalar>(
    unit: Seq<T>,
    normal: Vector<T, 3>,
    ratio: T,
    index: T,
    x: T,
) -> bool {
    let cos = spec_dielectric_cos(unit, normal);
    let sin = T::sp_one().sp_sub(cos.sp_mul(cos)).sp_sqrt();
    T::sp_one().sp_lt(ratio.sp_mul(sin)) || x.sp_lt(spec_reflectance(cos, ratio))
}

impl<T: Scalar> Dielectric<T> {
    pub fn new(refractive_index: T) -> (r: Self)
        ensures
            r.refractive_index == refractive_index,
    {
        Self { refractive_index }
    }

    fn reflectance(cosine: T, refractive_index: T) -> (r: T)
        ensures
            r == spec_reflectance(cosine, refractive_index),
    {
        let mut r0 = T::el_one().el_sub(refractive_index).el_div(
            T::el_one().el_add(refractive_index),
        );
        r0 = r0.el_mul(r0);
        let f = T::el_one().el_sub(cosine);
        let f5 = f.el_mul(f).el_mul(f).el_mul(f).el_mul(f);
        r0.el_add(T::el_one().el_sub(r0).el_mul(f5))
    }

    /// Glassy scattering: always succeeds with white attenuation; the new
    /// ray leaves the hit point reflected at total internal reflection or a
    /// winning Schlick draw, refracted by Snell's law otherwise.
    pub fn scatter<S: RandomSource<T>>(
        &self,
        ray: Ray<T, 3>,
        hit_record: HitRecord<T>,
        source: &mut S,
    ) -> (r: Option<ScatterResult<T>>)
        ensures
            r is Some,
            r matches Some(s) ==> {
                let ratio = spec_refraction_ratio(self.refractive_index, hit_record.front_face);
                let unit = crate::vec::seq_div_scalar(
                    ray.direction.data@,
                    ray.direction.spec_length(),
                );
                &&& s.ray.origin == hit_record.point
                &&& s.ray.time == ray.time
                &&& s.attenuation.0.data@ =~= Seq::new(3, |i: int| T::sp_one())
                &&& exists|x: T|
                    s.ray.direction.data@ == (if #[trigger] spec_cannot_refract(
                        unit,
                        hit_record.normal,
                        ratio,
                        self.refractive_index,
                        x,
                    ) {
                        spec_reflect(crate::vec::vec_of_seq3(unit), hit_record.normal)
                    } else {
                        seq_add(
                            spec_refract_perp(
                                crate::vec::vec_of_seq3(unit),
                                hit_record.normal,
                                ratio,
                            ),
                            seq_neg(
                                seq_mul_scalar(
                                    hit_record.normal.data@,
                                    par_len_of(
                                        crate::vec::vec_of_seq3(unit),
                                        hit_record.normal,
                                        ratio,
                                    ),
                                ),
                            ),
                        )
                    })
            },
    {
        let refraction_ratio = if hit_record.front_face {
            T::el_one().el_div(self.refractive_index)
        } else {
            self.refractive_index
        };
        let unit_direction = ray.direction.unit_vector();
        proof {
            lemma_unit_of_dir(ray, unit_direction);
        }

        let reversed = core::ops::Neg::neg(unit_direction);
        let cos_theta = crate::util::min_el(reversed.dot(hit_record.normal), T::el_one());
        proof {
            assert(reversed.data@ =~= seq_neg(unit_direction.data@));
        }
        let sin_theta = T::el_one().el_sub(cos_theta.el_mul(cos_theta)).el_sqrt();

        let draw = source.canonical();
        let cannot_refract = T::el_one().el_lt(refraction_ratio.el_mul(sin_theta)) || draw.el_lt(
            Self::reflectance(cos_theta, refraction_ratio),
        );

        let scatter = if cannot_refract {
            reflect(unit_direction, hit_record.normal)
        } else {
            refract(unit_direction, hit_record.normal, refraction_ratio)
        };
        proof {
            let ratio = spec_refraction_ratio(self.refractive_index, hit_record.front_face);
            let unit = crate::vec::seq_div_scalar(ray.direction.data@, ray.direction.spec_length());
            assert(refraction_ratio == ratio);
            assert(unit_direction == crate::vec::vec_of_seq3(unit));
            assert(cannot_refract == spec_cannot_refract(
                unit,
                hit_record.normal,
                ratio,
                self.refractive_index,
                draw,
            ));
        }

        Some(
            ScatterResult {
                ray: Ray { origin: hit_record.point, direction: scatter, time: ray.time },
                attenuation: Color::new_one(T::el_one()),
            },
        )
    }
}

/// The scattering behaviors the renderer offers: the closed set of
/// materials a primitive can carry.
pub enum Material<T: Scalar> {
    Lambertian(Lambertian<T>),
    Metal(Metal<T>),
    Dielectric(Dielectric<T>),
}

/// What a material may hand back for some draw of its samples: the
/// per-variant scattering contracts, gathered into one relation so callers
/// keep them across the dispatch.
pub open spec fn spec_scatter_rel<T: Scalar>(
    m: Material<T>,
    ray: Ray<T, 3>,
    hit_record: HitRecord<T>,
    out: Option<ScatterResult<T>>,
) -> bool {
    match m {
        Material::Lambertian(l) => {
            &&& out is Some
            &&& out matches Some(s) ==> {
                &&& s.ray.origin == hit_record.point
                &&& s.ray.time == ray.time
                &&& s.attenuation == spec_texture_value(
                    l.spec_albedo(),
                    hit_record.tex,
                    hit_record.point,
                )
                &&& exists|u: Vector<T, 3>|
                    s.ray.direction.data@ == #[trigger] spec_lambertian_dir(hit_record.normal, u)
            }
        },
        Material::Metal(mt) => exists|u: Vector<T, 3>|
            {
                let dir = #[trigger] spec_metal_dir(ray, hit_record.normal, mt.fuzz, u);
                let outward = T::sp_zero().sp_lt(spec_dot_prefix(dir, hit_record.normal.data@, 3));
                &&& out is Some <==> outward
                &&& out matches Some(s) ==> {
                    &&& s.ray.origin == hit_record.point
                    &&& s.ray.time == ray.time
                    &&& s.ray.direction.data@ == dir
                    &&& s.attenuation == mt.albedo
                }
            },
        Material::Dielectric(d) => {
            &&& out is Some
            &&& out matches Some(s) ==> {
                let ratio = spec_refraction_ratio(d.refractive_index, hit_record.front_face);
                let unit = crate::vec::seq_div_scalar(
                    ray.direction.data@,
                    ray.direction.spec_length(),
                );
                &&& s.ray.origin == hit_record.point
                &&& s.ray.time == ray.time
                &&& s.attenuation.0.data@ =~= Seq::new(3, |i: int| T::sp_one())
                &&& exists|x: T|
                    s.ray.direction.data@ == (if #[trigger] spec_cannot_refract(
                        unit,
                        hit_record.normal,
                        ratio,
                        d.refractive_index,
                        x,
                    ) {
                        spec_reflect(crate::vec::vec_of_seq3(unit), hit_record.normal)
                    } else {
                        seq_add(
                            spec_refract_perp(
                                crate::vec::vec_of_seq3(unit),
                                hit_record.normal,
                                ratio,
                            ),
                            seq_neg(
                                seq_mul_scalar(
                                    hit_record.normal.data@,
                                    par_len_of(
                                        crate::vec::vec_of_seq3(unit),
                                        hit_record.normal,
                                        ratio,
                                    ),
                                ),
                            ),
                        )
                    })
            }
        },
    }
}

impl<T: Scalar> Material<T> {
    /// Scatter the incoming ray at the hit: the result satisfies the
    /// variant's own contract, carried across the dispatch by
    /// `spec_scatter_rel`.
    pub fn scatter<S: RandomSource<T>>(
        &self,
        ray: Ray<T, 3>,
        hit_record: HitRecord<T>,
        source: &mut S,
    ) -> (r: Option<ScatterResult<T>>)
        ensures
            spec_scatter_rel(*self, ray, hit_record, r),
            r matches Some(s) ==> s.ray.origin == hit_record.point && s.ray.time == ray.time,
    {
        match self {
            Material::Lambertian(m) => m.scatter(ray, hit_record, source),
            Material::Metal(m) => m.scatter(ray, hit_record, source),
            Material::Dielectric(m) => m.scatter(ray, hit_record, source),
        }
    }
}

} // verus!
