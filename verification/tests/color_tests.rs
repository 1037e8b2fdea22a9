use ray_tracing_the_next_week::color::Color;
use ray_tracing_the_next_week::vec::{VecElement, Vector};

/// IEEE double-precision coordinates; the `sp_*` members are the erased
/// shadows of the library's specification functions and are never called.
#[derive(Clone, Copy, Debug, Default, PartialEq, PartialOrd)]
pub struct R64(pub f64);

impl VecElement for R64 {
    fn sp_add(self, other: Self) -> Self {
        R64(self.0 + other.0)
    }

    fn sp_sub(self, other: Self) -> Self {
        R64(self.0 - other.0)
    }

    fn sp_mul(self, other: Self) -> Self {
        R64(self.0 * other.0)
    }

    fn sp_div(self, other: Self) -> Self {
        R64(self.0 / other.0)
    }

    fn sp_neg(self) -> Self {
        R64(-self.0)
    }

    fn sp_zero() -> Self {
        R64(0.0)
    }

    fn sp_one() -> Self {
        R64(1.0)
    }

    fn sp_lt(self, other: Self) -> bool {
        self.0 < other.0
    }

    fn sp_le(self, other: Self) -> bool {
        self.0 <= other.0
    }

    fn el_add(self, other: Self) -> Self {
        R64(self.0 + other.0)
    }

    fn el_sub(self, other: Self) -> Self {
        R64(self.0 - other.0)
    }

    fn el_mul(self, other: Self) -> Self {
        R64(self.0 * other.0)
    }

    fn el_div(self, other: Self) -> Self {
        R64(self.0 / other.0)
    }

    fn el_neg(self) -> Self {
        R64(-self.0)
    }

    fn el_zero() -> Self {
        R64(0.0)
    }

    fn el_one() -> Self {
        R64(1.0)
    }

    fn el_lt(self, other: Self) -> bool {
        self.0 < other.0
    }

    fn el_le(self, other: Self) -> bool {
        self.0 <= other.0
    }
}

fn c3(a: f64, b: f64, c: f64) -> Color<R64> {
    Color::new([R64(a), R64(b), R64(c)])
}

#[test]
fn color_test_constructor() {
    assert_eq!(Color::<R64>::new_one(R64(0.0)).0.data, [R64(0.0), R64(0.0), R64(0.0)]);
    assert_eq!(
        Color::<R64>::new([R64(1.2), R64(3.7545), R64(4.1910)]).0.data,
        [R64(1.2), R64(3.7545), R64(4.1910)]
    );

    let vec = Vector::new([R64(0.3), R64(10.23), R64(1.764)]);
    assert_eq!(Color::from(vec).0.data, [R64(0.3), R64(10.23), R64(1.764)]);
}

#[test]
fn color_test_getters() {
    let color = c3(1.3, 5.33, 2.9);

    assert_eq!(color.0, Vector::new([R64(1.3), R64(5.33), R64(2.9)]));
    assert_eq!(color.0.data, [R64(1.3), R64(5.33), R64(2.9)]);

    let values = [R64(1.3), R64(5.33), R64(2.9)];
    assert_eq!(color.r(), &values[0]);
    assert_eq!(color.g(), &values[1]);
    assert_eq!(color.b(), &values[2]);
    assert_eq!(color.h(), &values[0]);
    assert_eq!(color.s(), &values[1]);
    assert_eq!(color.v(), &values[2]);
}

#[test]
fn color_test_operators() {
    let a = c3(1.0, 2.0, 3.0);
    let b = c3(4.0, 5.0, 6.0);

    assert_eq!(a + b, c3(5.0, 7.0, 9.0));
    assert_eq!(a - b, c3(-3.0, -3.0, -3.0));
    assert_eq!(a * b, c3(4.0, 10.0, 18.0));
    assert_eq!(a / b, c3(1.0 / 4.0, 2.0 / 5.0, 3.0 / 6.0));
    assert_eq!(-a, c3(-1.0, -2.0, -3.0));

    let c = 5.33424;

    assert_eq!(a + R64(c), c3(1.0 + c, 2.0 + c, 3.0 + c));
    assert_eq!(a - R64(c), c3(1.0 - c, 2.0 - c, 3.0 - c));
    assert_eq!(a * R64(c), c3(1.0 * c, 2.0 * c, 3.0 * c));
    assert_eq!(a / R64(c), c3(1.0 / c, 2.0 / c, 3.0 / c));
}
