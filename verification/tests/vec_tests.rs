use ray_tracing_the_next_week::vec::{Scalar, VecElement, Vector};
use vstd::prelude::Seq;

/// IEEE double-precision coordinates for the generic vector library.
/// The `sp_*` members mirror the executable operations; they are only the
/// erased shadows of the library's specification functions and are never
/// called at run time.
#[derive(Clone, Copy, Debug, Default, PartialEq, PartialOrd)]
pub struct R64(pub f64);

impl VecElement for R64 {
    fn sp_add(self, other: Self) -> Self {
        R64(self.0 + other.0)
    }

    fn sp_sub(self, other: Self) -> Self {
        R64(self.0 - other.0)
    }

    fn sp_mul(self, other: Self) -> Self {
        R64(self.0 * other.0)
    }

    fn sp_div(self, other: Self) -> Self {
        R64(self.0 / other.0)
    }

    fn sp_neg(self) -> Self {
        R64(-self.0)
    }

    fn sp_zero() -> Self {
        R64(0.0)
    }

    fn sp_one() -> Self {
        R64(1.0)
    }

    fn sp_lt(self, other: Self) -> bool {
        self.0 < other.0
    }

    fn sp_le(self, other: Self) -> bool {
        self.0 <= other.0
    }

    fn el_add(self, other: Self) -> Self {
        R64(self.0 + other.0)
    }

    fn el_sub(self, other: Self) -> Self {
        R64(self.0 - other.0)
    }

    fn el_mul(self, other: Self) -> Self {
        R64(self.0 * other.0)
    }

    fn el_div(self, other: Self) -> Self {
        R64(self.0 / other.0)
    }

    fn el_neg(self) -> Self {
        R64(-self.0)
    }

    fn el_zero() -> Self {
        R64(0.0)
    }

    fn el_one() -> Self {
        R64(1.0)
    }

    fn el_lt(self, other: Self) -> bool {
        self.0 < other.0
    }

    fn el_le(self, other: Self) -> bool {
        self.0 <= other.0
    }
}

impl Scalar for R64 {
    fn sp_sqrt(self) -> Self {
        R64(self.0.sqrt())
    }

    fn sp_near_zero(self) -> bool {
        self.0 < 1e-8 && self.0 > -1e-8
    }

    fn sp_num(numer: u32, denom: u32) -> Self {
        R64(numer as f64 / denom as f64)
    }

    fn sp_inf() -> Self {
        R64(f64::INFINITY)
    }

    fn sp_neg_inf() -> Self {
        R64(f64::NEG_INFINITY)
    }

    fn sp_tan(self) -> Self {
        R64(self.0.tan())
    }

    fn sp_to_radians(self) -> Self {
        R64(self.0.to_radians())
    }

    fn sp_trunc_u32(self) -> u32 {
        self.0 as u32
    }

    fn sp_floor_i64(self) -> i64 {
        self.0.floor() as i64
    }

    fn sp_parse(_s: Seq<char>) -> Option<Self> {
        unreachable!()
    }

    fn el_sqrt(self) -> Self {
        R64(self.0.sqrt())
    }

    fn el_near_zero(self) -> bool {
        self.0 < 1e-8 && self.0 > -1e-8
    }

    fn el_num(numer: u32, denom: u32) -> Self {
        R64(numer as f64 / denom as f64)
    }

    fn el_inf() -> Self {
        R64(f64::INFINITY)
    }

    fn el_neg_inf() -> Self {
        R64(f64::NEG_INFINITY)
    }

    fn el_tan(self) -> Self {
        R64(self.0.tan())
    }

    fn el_to_radians(self) -> Self {
        R64(self.0.to_radians())
    }

    fn el_trunc_u32(self) -> u32 {
        self.0 as u32
    }

    fn el_floor_i64(self) -> i64 {
        self.0.floor() as i64
    }

    fn el_parse(s: &str) -> Option<Self> {
        s.parse::<f64>().ok().map(R64)
    }
}

fn v3(a: f64, b: f64, c: f64) -> Vector<R64, 3> {
    Vector::new([R64(a), R64(b), R64(c)])
}

#[test]
fn test_operators() {
    let a = v3(1.0, 2.0, 3.0);
    let b = v3(4.0, 5.0, 6.0);

    assert_eq!(a + b, v3(5.0, 7.0, 9.0));
    assert_eq!(a - b, v3(-3.0, -3.0, -3.0));
    assert_eq!(a * b, v3(4.0, 10.0, 18.0));
    assert_eq!(a / b, v3(1.0 / 4.0, 2.0 / 5.0, 3.0 / 6.0));
    assert_eq!(-a, v3(-1.0, -2.0, -3.0));

    let c = 5.33424;

    assert_eq!(a + R64(c), v3(1.0 + c, 2.0 + c, 3.0 + c));
    assert_eq!(a - R64(c), v3(1.0 - c, 2.0 - c, 3.0 - c));
    assert_eq!(a * R64(c), v3(1.0 * c, 2.0 * c, 3.0 * c));
    assert_eq!(a / R64(c), v3(1.0 / c, 2.0 / c, 3.0 / c));
}

#[test]
fn test_functions() {
    let a = v3(1.0, 2.0, 3.0);

    assert_eq!(a.data, [R64(1.0), R64(2.0), R64(3.0)]);
    assert_eq!(a.length_squared(), R64(14.0));
    assert_eq!(a.length(), R64(14.0f64.sqrt()));
    assert_eq!(
        a.unit_vector(),
        v3(
            1.0 / 14.0f64.sqrt(),
            2.0 / 14.0f64.sqrt(),
            3.0 / 14.0f64.sqrt()
        )
    );
}

#[test]
fn test_free_functions() {
    // reflect = v - 2 * dot(v, n) * n
    let a = v3(
        -0.8471285155916642,
        -0.27185175689173274,
        -0.327858942211803,
    );
    let b = v3(
        -0.4306728257561193,
        -0.2940344720125667,
        -0.8532670428555941,
    );

    let _reflected = ray_tracing_the_next_week::vec::reflect(a, b);
}

fn approx(a: f64, b: f64, eps: f64) -> bool {
    (a - b).abs() < eps
}

#[test]
fn dot_is_commutative() {
    let a = v3(1.25, -2.5, 3.75);
    let b = v3(-4.0, 5.5, 6.125);
    assert_eq!(a.dot(b), b.dot(a));
}

#[test]
fn vector_plus_negation_vanishes() {
    let v = v3(0.1, -2.75, 31.5);
    assert_eq!(v + (-v), v3(0.0, 0.0, 0.0));
}

#[test]
fn cross_is_anticommutative_and_orthogonal() {
    let a = v3(1.0, 2.0, 3.0);
    let b = v3(-4.0, 0.5, 2.25);

    let ab = a.cross(b);
    let ba = b.cross(a);
    assert_eq!(ab, -ba);

    // exact for these dyadic inputs
    assert_eq!(a.dot(ab), R64(0.0));
    assert_eq!(b.dot(ab), R64(0.0));
}

#[test]
fn unit_vector_has_unit_length() {
    let v = v3(3.0, -4.0, 12.0);
    let u = v.unit_vector();
    assert!(approx(u.length().0, 1.0, 1e-12));
}

#[test]
fn reflect_preserves_length_and_flips_dot() {
    let v = v3(0.3, -1.7, 2.2);
    let n = v3(0.0, 1.0, 0.0);

    let r = ray_tracing_the_next_week::vec::reflect(v, n);
    assert!(approx(r.dot(n).0, -(v.dot(n).0), 1e-12));
    assert!(approx(r.length().0, v.length().0, 1e-12));
}

#[test]
fn refract_obeys_snell() {
    // incoming at 45 degrees onto a surface with normal +y, entering a
    // denser medium with ratio 0.5
    let v = v3(1.0, -1.0, 0.0).unit_vector();
    let n = v3(0.0, 1.0, 0.0);
    let eta = R64(0.5);

    let r = v.refract(n, eta);
    let sin_in = (v.data[0].0 * v.data[0].0 + v.data[2].0 * v.data[2].0).sqrt();
    let r_len = r.length().0;
    let sin_out = (r.data[0].0 * r.data[0].0 + r.data[2].0 * r.data[2].0).sqrt() / r_len;
    assert!(approx(sin_out, eta.0 * sin_in, 1e-9));
}

#[test]
fn gamma_round_trip() {
    let mut c = 0.0f64;
    while c <= 1.0 {
        let g = ray_tracing_the_next_week::util::linear_to_gamma(R64(c));
        assert!(approx(g.0 * g.0, c, 1e-12));
        c += 0.0625;
    }
}

#[test]
fn parse_vector_reads_slash_separated_coordinates() {
    let v: Option<Vector<R64, 3>> =
        ray_tracing_the_next_week::parse_vector("13.0/2.0/3.0");
    assert_eq!(v, Some(v3(13.0, 2.0, 3.0)));

    let too_short: Option<Vector<R64, 3>> = ray_tracing_the_next_week::parse_vector("1.0/2.0");
    assert_eq!(too_short, None);

    let not_a_number: Option<Vector<R64, 3>> =
        ray_tracing_the_next_week::parse_vector("1.0/x/3.0");
    assert_eq!(not_a_number, None);

    let negative: Option<Vector<R64, 2>> = ray_tracing_the_next_week::parse_vector("-1.5/0.25");
    assert_eq!(negative, Some(Vector::new([R64(-1.5), R64(0.25)])));
}
