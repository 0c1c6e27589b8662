use use_optimization::constraint::{outside, satisfies_all, within, Bounds};

fn b(x: f64) -> u64 {
    x.to_bits()
}

fn bounds(min: Option<f64>, max: Option<f64>) -> Bounds {
    Bounds {
        min: min.map(f64::to_bits),
        max: max.map(f64::to_bits),
    }
}

#[test]
fn validates_and_checks_bounds() {
    let bounds = bounds(Some(0.0), Some(10.0));

    assert!(bounds.is_valid());
    assert!(bounds.contains(b(0.0)));
    assert!(bounds.contains(b(10.0)));
    assert!(!bounds.contains(b(11.0)));
    assert_eq!(bounds.clamp(b(-3.0)), b(0.0));
    assert_eq!(bounds.clamp(b(12.0)), b(10.0));
    assert_eq!(bounds.clamp(b(6.0)), b(6.0));
}

#[test]
fn handles_invalid_bounds() {
    let invalid = bounds(Some(5.0), Some(1.0));

    assert!(!invalid.is_valid());
    assert!(!invalid.contains(b(3.0)));
    assert_eq!(invalid.clamp(b(3.0)), b(3.0));
    assert!(!within(b(3.0), b(5.0), b(1.0)));
    assert!(!outside(b(3.0), b(5.0), b(1.0)));
}

#[test]
fn supports_unbounded_edges() {
    let lower_only = bounds(Some(2.0), None);
    let upper_only = bounds(None, Some(4.0));

    assert!(lower_only.contains(b(3.0)));
    assert!(!lower_only.contains(b(1.0)));
    assert!(upper_only.contains(b(3.0)));
    assert!(!upper_only.contains(b(5.0)));
}

#[test]
fn evaluates_constraint_sets() {
    let constraints = [bounds(Some(0.0), Some(10.0)), bounds(Some(2.0), Some(8.0))];

    assert!(satisfies_all(b(5.0), &constraints));
    assert!(!satisfies_all(b(1.0), &constraints));
    assert!(satisfies_all(b(5.0), &[]));
    assert!(!satisfies_all(b(f64::NAN), &constraints));
    assert!(within(b(3.0), b(1.0), b(5.0)));
    assert!(outside(b(0.0), b(1.0), b(5.0)));
}

#[test]
fn non_finite_sides_make_bounds_invalid() {
    assert!(!bounds(Some(f64::NEG_INFINITY), None).is_valid());
    assert!(!bounds(None, Some(f64::NAN)).is_valid());
    assert!(bounds(None, None).is_valid());
    assert!(bounds(Some(2.0), Some(2.0)).is_valid());
    assert!(bounds(Some(2.0), Some(2.0)).contains(b(2.0)));
    assert!(bounds(None, None).contains(b(-1e300)));
    assert!(!bounds(None, None).contains(b(f64::INFINITY)));
    assert_eq!(bounds(None, None).clamp(b(f64::INFINITY)), b(f64::INFINITY));
    assert_eq!(bounds(Some(0.0), Some(1.0)).clamp(b(f64::NAN)), b(f64::NAN));
}

#[test]
fn clamp_lands_inside_and_is_idempotent() {
    let bs = [
        bounds(Some(-1.0), Some(1.0)),
        bounds(Some(2.0), None),
        bounds(None, Some(-3.0)),
        bounds(Some(0.0), Some(0.0)),
    ];
    for bound in bs {
        for x in [-10.0, -1.0, -0.0, 0.0, 0.5, 1.0, 2.0, 100.0] {
            let once = bound.clamp(b(x));
            assert!(bound.contains(once));
            assert_eq!(bound.clamp(once), once);
            if bound.contains(b(x)) {
                assert_eq!(once, b(x));
            }
        }
    }
}

#[test]
fn within_and_outside_partition_finite_values() {
    for x in [-1.0, 0.0, 1.0, 2.5, 5.0, 6.0] {
        assert!(within(b(x), b(0.0), b(5.0)) != outside(b(x), b(0.0), b(5.0)));
    }
    assert!(!within(b(f64::NAN), b(0.0), b(5.0)));
    assert!(!outside(b(f64::NAN), b(0.0), b(5.0)));
    assert!(!within(b(1.0), b(f64::NAN), b(5.0)));
    assert!(!outside(b(9.0), b(f64::NAN), b(5.0)));
}

#[test]
fn satisfies_all_requires_each_constraint() {
    let constraints = [bounds(Some(0.0), None), bounds(None, Some(3.0)), bounds(Some(5.0), Some(1.0))];
    assert!(!satisfies_all(b(1.0), &constraints));
    assert!(satisfies_all(b(1.0), &constraints[..2]));
    assert!(!satisfies_all(b(f64::INFINITY), &[]));
}

#[test]
fn bounds_compare_numerically() {
    assert_eq!(bounds(Some(0.0), None), bounds(Some(-0.0), None));
    assert_eq!(bounds(Some(1.0), Some(2.0)), bounds(Some(1.0), Some(2.0)));
    assert_ne!(bounds(Some(1.0), None), bounds(None, Some(1.0)));
    assert_ne!(bounds(Some(f64::NAN), None), bounds(Some(f64::NAN), None));
}
