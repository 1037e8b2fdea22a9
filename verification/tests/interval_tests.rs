use ray_tracing_the_next_week::interval::Interval;

#[test]
fn interval_contains_and_surrounds() {
    let r = Interval::new(2i64, 7i64);

    assert!(r.contains(2));
    assert!(r.contains(5));
    assert!(r.contains(7));
    assert!(!r.contains(1));
    assert!(!r.contains(8));

    assert!(!r.surrounds(2));
    assert!(r.surrounds(5));
    assert!(!r.surrounds(7));
    assert!(!r.surrounds(1));
}

#[test]
fn interval_combine_commutative_and_associative() {
    let a = Interval::new(-3i64, 4i64);
    let b = Interval::new(1i64, 9i64);
    let c = Interval::new(-10i64, -5i64);

    let ab = a.combine_new(&b);
    let ba = b.combine_new(&a);
    assert_eq!(ab, ba);
    assert_eq!(ab, Interval::new(-3, 9));

    let ab_c = a.combine_new(&b).combine_new(&c);
    let a_bc = a.combine_new(&b.combine_new(&c));
    assert_eq!(ab_c, a_bc);
    assert_eq!(ab_c, Interval::new(-10, 9));
}

#[test]
fn interval_expand_and_clamp() {
    let r = Interval::new(0i64, 10i64);
    let wider = r.expand_new(3);
    assert_eq!(wider, Interval::new(-3, 13));

    let mut grown = Interval::new(0i64, 10i64);
    grown.expand(3);
    assert_eq!(grown, wider);

    assert_eq!(r.clamp(-4), 0);
    assert_eq!(r.clamp(4), 4);
    assert_eq!(r.clamp(14), 10);
    assert!(r.contains(r.clamp(-100)));
    assert!(r.contains(r.clamp(100)));
    assert!(r.contains(r.clamp(5)));
}

#[test]
fn interval_containment_of_intervals() {
    let outer = Interval::new(0i64, 10i64);
    let inner = Interval::new(2i64, 8i64);
    let edge = Interval::new(0i64, 10i64);

    assert!(outer.contains_interval(&inner));
    assert!(outer.contains_interval(&edge));
    assert!(outer.surrounds_interval(&inner));
    assert!(!outer.surrounds_interval(&edge));

    let mut merged = Interval::new(5i64, 6i64);
    merged.combine(&inner);
    assert_eq!(merged, Interval::new(2, 8));
}
