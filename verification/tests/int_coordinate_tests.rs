use ray_tracing_the_next_week::aabb::AABB;
use ray_tracing_the_next_week::interval::Interval;
use ray_tracing_the_next_week::vec::{Scalar, VecElement, Vector};

#[test]
fn integer_square_root_is_the_floor_root() {
    assert_eq!(0i64.el_sqrt(), 0);
    assert_eq!(1i64.el_sqrt(), 1);
    assert_eq!(3i64.el_sqrt(), 1);
    assert_eq!(4i64.el_sqrt(), 2);
    assert_eq!(99i64.el_sqrt(), 9);
    assert_eq!(100i64.el_sqrt(), 10);
    assert_eq!((-5i64).el_sqrt(), 0);
    assert_eq!(i64::MAX.el_sqrt(), 3037000499);
    assert_eq!((3037000499i64 * 3037000499).el_sqrt(), 3037000499);
    assert_eq!((3037000499i64 * 3037000499 - 1).el_sqrt(), 3037000498);
}

#[test]
fn integer_arithmetic_wraps_and_saturates() {
    assert_eq!(5i64.el_add(7), 12);
    assert_eq!(i64::MAX.el_add(1), i64::MIN);
    assert_eq!(5i64.el_mul(-3), -15);
    assert_eq!(7i64.el_div(2), 3);
    assert_eq!((-7i64).el_div(2), -3);
    assert_eq!(5i64.el_div(0), i64::MAX);
    assert_eq!((-5i64).el_div(0), i64::MIN);
    assert_eq!(4i64.el_neg(), -4);
}

#[test]
fn integer_vectors_compute_exactly() {
    let a = Vector::new([1i64, 2, 3]);
    let b = Vector::new([4i64, 5, 6]);

    assert_eq!(a + b, Vector::new([5i64, 7, 9]));
    assert_eq!(a.dot(b), 32);
    assert_eq!(a.cross(b), Vector::new([-3i64, 6, -3]));
    assert_eq!(a.dot(a.cross(b)), 0);
    assert_eq!(b.dot(a.cross(b)), 0);
    assert_eq!(a.length_squared(), 14);
    assert_eq!(a.length(), 3);
}

#[test]
fn seven_dimensional_cross_is_orthogonal() {
    let a = Vector::new([1i64, 2, 3, 4, 5, 6, 7]);
    let b = Vector::new([7i64, 5, 3, 1, -1, -3, -5]);

    let c = a.cross(b);
    assert_eq!(a.dot(c), 0);
    assert_eq!(b.dot(c), 0);
}

#[test]
fn integer_boxes_combine_and_measure() {
    let a = AABB::from_points(Vector::new([0i64, 5, -2]), Vector::new([4i64, 1, 2]));
    assert_eq!(*a.axis_interval(0), Interval::new(0, 4));
    assert_eq!(*a.axis_interval(1), Interval::new(1, 5));
    assert_eq!(*a.axis_interval(2), Interval::new(-2, 2));

    let b = AABB::from_points(Vector::new([-1i64, 2, 0]), Vector::new([1i64, 3, 10]));
    let c = a.combine_new(&b);
    assert_eq!(*c.axis_interval(0), Interval::new(-1, 4));
    assert_eq!(*c.axis_interval(2), Interval::new(-2, 10));
    // the z axis spans 12, the widest
    assert_eq!(c.longest_axis(), 2);

    let empty = AABB::<i64, 3>::empty();
    assert_eq!(*empty.axis_interval(0), Interval::new(i64::MAX, i64::MIN));
    let universe = AABB::<i64, 3>::universe();
    assert_eq!(*universe.axis_interval(0), Interval::new(i64::MIN, i64::MAX));
}
