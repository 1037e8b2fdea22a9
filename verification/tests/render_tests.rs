use ray_tracing_the_next_week::aabb::AABB;
use ray_tracing_the_next_week::bvh::BvhNode;
use ray_tracing_the_next_week::color::Color;
use ray_tracing_the_next_week::hittable::{HittableList, SceneObject, Sphere};
use ray_tracing_the_next_week::interval::Interval;
use ray_tracing_the_next_week::material::{Dielectric, Lambertian, Material, Metal};
use ray_tracing_the_next_week::ray::Ray;
use ray_tracing_the_next_week::texture::{CheckerTexture, Texture};
use ray_tracing_the_next_week::ray_tracer::{rows_for_worker, RayTracer, TracerParams};
use ray_tracing_the_next_week::util::RandomSource;
use ray_tracing_the_next_week::vec::{Scalar, VecElement, Vector};
use vstd::prelude::Seq;

/// IEEE double-precision coordinates; the `sp_*` members are the erased
/// shadows of the library's specification functions and are never called.
#[derive(Clone, Copy, Debug, Default, PartialEq, PartialOrd)]
pub struct R64(pub f64);

impl VecElement for R64 {
    fn sp_add(self, other: Self) -> Self {
        R64(self.0 + other.0)
    }

    fn sp_sub(self, other: Self) -> Self {
        R64(self.0 - other.0)
    }

    fn sp_mul(self, other: Self) -> Self {
        R64(self.0 * other.0)
    }

    fn sp_div(self, other: Self) -> Self {
        R64(self.0 / other.0)
    }

    fn sp_neg(self) -> Self {
        R64(-self.0)
    }

    fn sp_zero() -> Self {
        R64(0.0)
    }

    fn sp_one() -> Self {
        R64(1.0)
    }

    fn sp_lt(self, other: Self) -> bool {
        self.0 < other.0
    }

    fn sp_le(self, other: Self) -> bool {
        self.0 <= other.0
    }

    fn el_add(self, other: Self) -> Self {
        R64(self.0 + other.0)
    }

    fn el_sub(self, other: Self) -> Self {
        R64(self.0 - other.0)
    }

    fn el_mul(self, other: Self) -> Self {
        R64(self.0 * other.0)
    }

    fn el_div(self, other: Self) -> Self {
        R64(self.0 / other.0)
    }

    fn el_neg(self) -> Self {
        R64(-self.0)
    }

    fn el_zero() -> Self {
        R64(0.0)
    }

    fn el_one() -> Self {
        R64(1.0)
    }

    fn el_lt(self, other: Self) -> bool {
        self.0 < other.0
    }

    fn el_le(self, other: Self) -> bool {
        self.0 <= other.0
    }
}

impl Scalar for R64 {
    fn sp_sqrt(self) -> Self {
        R64(self.0.sqrt())
    }

    fn sp_near_zero(self) -> bool {
        self.0 < 1e-8 && self.0 > -1e-8
    }

    fn sp_num(numer: u32, denom: u32) -> Self {
        R64(numer as f64 / denom as f64)
    }

    fn sp_inf() -> Self {
        R64(f64::INFINITY)
    }

    fn sp_neg_inf() -> Self {
        R64(f64::NEG_INFINITY)
    }

    fn sp_tan(self) -> Self {
        R64(self.0.tan())
    }

    fn sp_to_radians(self) -> Self {
        R64(self.0.to_radians())
    }

    fn sp_trunc_u32(self) -> u32 {
        self.0 as u32
    }

    fn sp_floor_i64(self) -> i64 {
        self.0.floor() as i64
    }

    fn sp_parse(_s: Seq<char>) -> Option<Self> {
        unreachable!()
    }

    fn el_sqrt(self) -> Self {
        R64(self.0.sqrt())
    }

    fn el_near_zero(self) -> bool {
        self.0 < 1e-8 && self.0 > -1e-8
    }

    fn el_num(numer: u32, denom: u32) -> Self {
        R64(numer as f64 / denom as f64)
    }

    fn el_inf() -> Self {
        R64(f64::INFINITY)
    }

    fn el_neg_inf() -> Self {
        R64(f64::NEG_INFINITY)
    }

    fn el_tan(self) -> Self {
        R64(self.0.tan())
    }

    fn el_to_radians(self) -> Self {
        R64(self.0.to_radians())
    }

    fn el_trunc_u32(self) -> u32 {
        self.0 as u32
    }

    fn el_floor_i64(self) -> i64 {
        self.0.floor() as i64
    }

    fn el_parse(s: &str) -> Option<Self> {
        s.parse::<f64>().ok().map(R64)
    }
}

/// A small deterministic generator, so renders can be replayed bit for bit.
pub struct Lcg(pub u64);

impl Lcg {
    fn next_u64(&mut self) -> u64 {
        self.0 = self
            .0
            .wrapping_mul(6364136223846793005)
            .wrapping_add(1442695040888963407);
        self.0
    }

    fn next_f64(&mut self) -> f64 {
        (self.next_u64() >> 11) as f64 / (1u64 << 53) as f64
    }
}

impl RandomSource<R64> for Lcg {
    fn canonical(&mut self) -> R64 {
        R64(self.next_f64())
    }

    fn uniform(&mut self, from: R64, to: R64) -> R64 {
        R64(from.0 + (to.0 - from.0) * self.next_f64())
    }
}

fn v3(a: f64, b: f64, c: f64) -> Vector<R64, 3> {
    Vector::new([R64(a), R64(b), R64(c)])
}

fn ray(origin: Vector<R64, 3>, direction: Vector<R64, 3>, time: f64) -> Ray<R64, 3> {
    Ray {
        origin,
        direction,
        time: R64(time),
    }
}

fn full_range() -> Interval<R64> {
    Interval::new(R64(0.001), R64(f64::INFINITY))
}

#[test]
fn sphere_near_root_from_outside() {
    let s = Sphere::new(v3(0.0, 0.0, 0.0), R64(1.0), None);
    let r = ray(v3(0.0, 0.0, 5.0), v3(0.0, 0.0, -1.0), 0.0);

    let hit = s.hit(r, full_range()).expect("the ray points at the center");
    assert_eq!(hit.record.t_value, R64(4.0));
    assert!(hit.record.front_face);
    assert_eq!(hit.record.point, v3(0.0, 0.0, 1.0));
    assert_eq!(hit.record.normal, v3(0.0, 0.0, 1.0));
}

#[test]
fn sphere_far_root_from_inside() {
    let s = Sphere::new(v3(0.0, 0.0, 0.0), R64(1.0), None);
    let r = ray(v3(0.0, 0.0, 0.0), v3(0.0, 0.0, -1.0), 0.0);

    let hit = s.hit(r, full_range()).expect("the origin is inside");
    assert_eq!(hit.record.t_value, R64(1.0));
    assert!(!hit.record.front_face);
    // the stored normal is flipped against the ray
    assert_eq!(hit.record.normal, v3(0.0, 0.0, 1.0));
}

#[test]
fn aabb_hit_from_inside_and_parallel_miss() {
    let unit = Interval::new(R64(-1.0), R64(1.0));
    let bbox = AABB::new([unit, unit, unit]);

    let inside = ray(v3(0.0, 0.0, 0.0), v3(0.3, 0.5, -0.8), 0.0);
    assert!(bbox.hit(inside, full_range()));

    let parallel_outside = ray(v3(5.0, 0.0, 0.0), v3(0.0, 1.0, 0.0), 0.0);
    assert!(!bbox.hit(parallel_outside, full_range()));
}

#[test]
fn hittable_list_returns_minimum_t() {
    let mut list = HittableList::new();
    list.add(SceneObject::Sphere(Sphere::new(v3(0.0, 0.0, -10.0), R64(1.0), None)));
    list.add(SceneObject::Sphere(Sphere::new(v3(0.0, 0.0, -4.0), R64(1.0), None)));
    list.add(SceneObject::Sphere(Sphere::new(v3(0.0, 0.0, -7.0), R64(1.0), None)));

    let r = ray(v3(0.0, 0.0, 0.0), v3(0.0, 0.0, -1.0), 0.0);
    let hit = list.hit(r, full_range()).expect("three spheres on the axis");
    assert_eq!(hit.record.t_value, R64(3.0));
}

#[test]
fn moving_sphere_is_met_at_its_displaced_center() {
    let s = Sphere::new_moving(v3(0.0, 0.0, 0.0), v3(0.0, 1.0, 0.0), R64(1.0), None);
    let r = ray(v3(0.0, 0.5, 5.0), v3(0.0, 0.0, -1.0), 0.5);

    let hit = s.hit(r, full_range()).expect("the displaced center is in line");
    assert_eq!(hit.record.t_value, R64(4.0));
    assert_eq!(hit.record.point, v3(0.0, 0.5, 1.0));
}

#[test]
fn metal_mirror_reflects_exactly() {
    let metal = Metal::new(Color::new([R64(1.0), R64(1.0), R64(1.0)]), R64(0.0));
    let s = Sphere::new(
        v3(0.0, 0.0, 0.0),
        R64(1.0),
        Some(Material::Metal(metal)),
    );
    let r = ray(v3(0.0, 0.0, 5.0), v3(0.0, 0.0, -1.0), 0.0);
    let hit = s.hit(r, full_range()).unwrap();

    let mut source = Lcg(7);
    let m = hit.material.expect("the sphere has a material");
    let scatter = m
        .scatter(r, hit.record, &mut source)
        .expect("a head-on mirror reflects");

    // d - reflect(d_in, n) must vanish
    let expected = v3(0.0, 0.0, 1.0);
    for i in 0..3 {
        assert!((scatter.ray.direction.data[i].0 - expected.data[i].0).abs() < 1e-12);
    }
    assert_eq!(scatter.attenuation, Color::new([R64(1.0), R64(1.0), R64(1.0)]));
}

#[test]
fn dielectric_reflects_at_total_internal_reflection() {
    let glass = Dielectric::new(R64(1.5));
    let s = Sphere::new(
        v3(0.0, 0.0, 0.0),
        R64(1.0),
        Some(Material::Dielectric(glass)),
    );
    // from inside, grazing: eta * sin(theta) = 1.5 * 0.8 > 1
    let r = ray(v3(0.8, 0.0, 0.0), v3(0.0, 1.0, 0.0), 0.0);
    let hit = s.hit(r, full_range()).unwrap();
    assert!(!hit.record.front_face);

    let mut source = Lcg(7);
    let m = hit.material.unwrap();
    let scatter = m
        .scatter(r, hit.record, &mut source)
        .expect("a dielectric always scatters");

    let expected = v3(-0.96, 0.28, 0.0);
    for i in 0..3 {
        assert!((scatter.ray.direction.data[i].0 - expected.data[i].0).abs() < 1e-12);
    }
}

fn random_spheres(source: &mut Lcg, count: usize) -> Vec<Sphere<R64>> {
    let mut spheres = Vec::new();
    for _ in 0..count {
        let center = v3(
            source.uniform(R64(-20.0), R64(20.0)).0,
            source.uniform(R64(-20.0), R64(20.0)).0,
            source.uniform(R64(-20.0), R64(20.0)).0,
        );
        let radius = source.uniform(R64(0.2), R64(2.0));
        spheres.push(Sphere::new(center, radius, None));
    }
    spheres
}

#[test]
fn bvh_agrees_with_linear_scan() {
    let mut source = Lcg(42);
    let spheres = random_spheres(&mut source, 200);
    let mut linear = HittableList::new();
    for s in spheres {
        linear.add(SceneObject::Sphere(s));
    }

    // the same spheres again, from the same seed
    let mut source = Lcg(42);
    let spheres = random_spheres(&mut source, 200);
    let mut accelerated = HittableList::new();
    accelerated.add(SceneObject::Bvh(BvhNode::new(spheres)));

    let mut ray_source = Lcg(1234);
    let mut hits = 0usize;
    for _ in 0..1000 {
        let origin = v3(
            ray_source.uniform(R64(-30.0), R64(30.0)).0,
            ray_source.uniform(R64(-30.0), R64(30.0)).0,
            40.0,
        );
        let direction = v3(
            ray_source.uniform(R64(-1.0), R64(1.0)).0,
            ray_source.uniform(R64(-1.0), R64(1.0)).0,
            -1.0,
        );
        let r = ray(origin, direction, 0.0);

        let a = linear.hit(r, full_range());
        let b = accelerated.hit(r, full_range());
        match (a, b) {
            (None, None) => {}
            (Some(x), Some(y)) => {
                hits += 1;
                assert!((x.record.t_value.0 - y.record.t_value.0).abs() < 1e-9);
            }
            _ => panic!("one traversal hit where the other missed"),
        }
    }
    assert!(hits > 0, "the scene should be hit at least once");
}

fn red_sphere_params() -> TracerParams<R64> {
    TracerParams {
        aspect_ratio: R64(1.0),
        height: 5,
        sampling_rate: 1,
        max_depth: 2,
        vfov: R64(40.0),
        defocus_angle: R64(0.0),
        focus_distance: R64(5.0),
        look_from: v3(0.0, 0.0, 5.0),
        look_at: v3(0.0, 0.0, 0.0),
    }
}

#[test]
fn single_red_sphere_renders_red_center_and_sky_corners() {
    let mut scene = HittableList::new();
    let red = Lambertian::new(Color::new([R64(1.0), R64(0.0), R64(0.0)]));
    scene.add(SceneObject::Sphere(Sphere::new(
        v3(0.0, 0.0, 0.0),
        R64(1.0),
        Some(Material::Lambertian(red)),
    )));

    let tracer = RayTracer::new(red_sphere_params());
    let mut source = Lcg(5);
    let image = tracer.render(&scene, &mut source);

    assert_eq!(image.pixels.len(), 25);
    let center = image.pixels[12];
    assert!(center.r().0 > 0.0, "the center pixel sees the sphere");
    assert_eq!(center.g().0, 0.0);
    assert_eq!(center.b().0, 0.0);

    for corner in [0usize, 4, 20, 24] {
        assert!(image.pixels[corner].b().0 > 0.0, "corners see the sky");
    }
}

#[test]
fn fixed_seed_renders_are_identical() {
    let mut scene = HittableList::new();
    scene.add(SceneObject::Sphere(Sphere::new(
        v3(0.0, 0.0, 0.0),
        R64(1.0),
        Some(Material::Lambertian(Lambertian::new(Color::new([
            R64(0.5),
            R64(0.5),
            R64(0.5),
        ])))),
    )));

    let mut params = red_sphere_params();
    params.height = 4;
    params.sampling_rate = 3;
    params.max_depth = 4;
    let tracer = RayTracer::new(params);

    let mut first_source = Lcg(99);
    let first = tracer.render(&scene, &mut first_source);
    let mut second_source = Lcg(99);
    let second = tracer.render(&scene, &mut second_source);

    assert_eq!(first.pixels, second.pixels);
    assert_eq!(first.dimension, second.dimension);
}

#[test]
fn interleaved_rows_cover_every_row_once() {
    let workers = 3u32;
    let height = 10u32;
    let mut seen = vec![0u32; height as usize];
    for w in 0..workers {
        for row in rows_for_worker(w, workers, height) {
            seen[row as usize] += 1;
        }
    }
    assert!(seen.iter().all(|&c| c == 1));
}

#[test]
fn checker_texture_alternates_cells() {
    let even = Color::new([R64(1.0), R64(0.0), R64(0.0)]);
    let odd = Color::new([R64(0.0), R64(0.0), R64(1.0)]);
    // scale 1: inv_scale 1, cells of edge one
    let checker = Texture::Checker(CheckerTexture::from_color(R64(1.0), even, odd));
    let uv = Vector::new([R64(0.0), R64(0.0)]);

    assert_eq!(checker.value(uv, v3(0.5, 0.5, 0.5)), even);
    assert_eq!(checker.value(uv, v3(1.5, 0.5, 0.5)), odd);
    assert_eq!(checker.value(uv, v3(1.5, 1.5, 0.5)), even);
    assert_eq!(checker.value(uv, v3(-0.5, 0.5, 0.5)), odd);
}

#[test]
fn lambertian_always_scatters_from_the_hit_point() {
    let diffuse = Lambertian::new(Color::new([R64(0.8), R64(0.1), R64(0.2)]));
    let s = Sphere::new(
        v3(0.0, 0.0, 0.0),
        R64(1.0),
        Some(Material::Lambertian(diffuse)),
    );
    let r = ray(v3(0.0, 0.0, 5.0), v3(0.0, 0.0, -1.0), 0.25);
    let hit = s.hit(r, full_range()).unwrap();

    let mut source = Lcg(11);
    let scatter = hit
        .material
        .unwrap()
        .scatter(r, hit.record, &mut source)
        .expect("diffuse surfaces always scatter");
    assert_eq!(scatter.ray.origin, v3(0.0, 0.0, 1.0));
    assert_eq!(scatter.ray.time, R64(0.25));
    assert_eq!(scatter.attenuation, Color::new([R64(0.8), R64(0.1), R64(0.2)]));
    // the scattered direction leans along the outward normal
    assert!(scatter.ray.direction.data[2].0 > -1.0);
}
