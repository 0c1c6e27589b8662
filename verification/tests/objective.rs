use use_optimization::objective::{best_value, is_better, ObjectiveDirection, ObjectiveValue};

fn b(x: f64) -> u64 {
    x.to_bits()
}

fn bits(xs: &[f64]) -> Vec<u64> {
    xs.iter().map(|x| x.to_bits()).collect()
}

#[test]
fn compares_candidates_by_direction() {
    assert!(is_better(b(2.0), b(5.0), ObjectiveDirection::Minimize));
    assert!(is_better(b(5.0), b(2.0), ObjectiveDirection::Maximize));
    assert!(!is_better(b(2.0), b(2.0), ObjectiveDirection::Maximize));
}

#[test]
fn chooses_best_value() {
    assert_eq!(
        best_value(&bits(&[4.0, 2.0, 3.0]), ObjectiveDirection::Minimize),
        Some(b(2.0))
    );
    assert_eq!(
        best_value(&bits(&[4.0, 2.0, 3.0]), ObjectiveDirection::Maximize),
        Some(b(4.0))
    );
    assert_eq!(best_value(&bits(&[9.0]), ObjectiveDirection::Minimize), Some(b(9.0)));
}

#[test]
fn returns_none_for_invalid_values() {
    assert_eq!(best_value(&[], ObjectiveDirection::Minimize), None);
    assert_eq!(
        best_value(&bits(&[1.0, f64::NAN]), ObjectiveDirection::Maximize),
        None
    );
    assert!(!is_better(b(f64::INFINITY), b(2.0), ObjectiveDirection::Minimize));
}

#[test]
fn objective_value_helpers_stay_explicit() {
    let candidate = ObjectiveValue::new(b(2.0), ObjectiveDirection::Minimize).unwrap();
    let incumbent = ObjectiveValue::new(b(5.0), ObjectiveDirection::Minimize).unwrap();
    let other_direction = ObjectiveValue::new(b(5.0), ObjectiveDirection::Maximize).unwrap();

    assert_eq!(candidate.value(), b(2.0));
    assert_eq!(candidate.direction(), ObjectiveDirection::Minimize);
    assert_eq!(candidate.is_better_than(&incumbent), Some(true));
    assert_eq!(candidate.better(incumbent), Some(candidate));
    assert_eq!(candidate.is_better_than(&other_direction), None);
    assert_eq!(
        ObjectiveValue::new(b(f64::NEG_INFINITY), ObjectiveDirection::Maximize),
        None
    );
}

#[test]
fn best_value_keeps_the_first_of_equal_values() {
    // -0.0 and 0.0 are numerically equal: the first one stays.
    assert_eq!(
        best_value(&bits(&[1.0, -0.0, 0.0]), ObjectiveDirection::Minimize),
        Some(b(-0.0))
    );
    assert_eq!(
        best_value(&bits(&[0.0, -0.0, -1.0]), ObjectiveDirection::Maximize),
        Some(b(0.0))
    );
    assert_eq!(
        best_value(&bits(&[3.0, 7.0, 7.0, 1.0]), ObjectiveDirection::Maximize),
        Some(b(7.0))
    );
}

#[test]
fn best_value_rejects_infinities() {
    assert_eq!(
        best_value(&bits(&[1.0, f64::INFINITY]), ObjectiveDirection::Minimize),
        None
    );
    assert_eq!(
        best_value(&bits(&[f64::NEG_INFINITY]), ObjectiveDirection::Maximize),
        None
    );
}

#[test]
fn is_better_is_asymmetric_and_mirrored() {
    let pairs = [(1.0, 2.0), (-3.5, 0.0), (0.0, -0.0), (1e300, -1e300)];
    for (x, y) in pairs {
        for direction in [ObjectiveDirection::Minimize, ObjectiveDirection::Maximize] {
            assert!(!(is_better(b(x), b(y), direction) && is_better(b(y), b(x), direction)));
        }
        assert_eq!(
            is_better(b(x), b(y), ObjectiveDirection::Minimize),
            is_better(b(y), b(x), ObjectiveDirection::Maximize)
        );
    }
    assert!(!is_better(b(0.0), b(-0.0), ObjectiveDirection::Maximize));
    assert!(!is_better(b(f64::NAN), b(1.0), ObjectiveDirection::Maximize));
    assert!(!is_better(b(1.0), b(f64::NAN), ObjectiveDirection::Maximize));
}

#[test]
fn is_better_is_transitive_on_examples() {
    let d = ObjectiveDirection::Minimize;
    assert!(is_better(b(-2.0), b(1.0), d));
    assert!(is_better(b(1.0), b(4.0), d));
    assert!(is_better(b(-2.0), b(4.0), d));
}

#[test]
fn objective_value_better_picks_other_on_ties_and_losses() {
    let a = ObjectiveValue::new(b(3.0), ObjectiveDirection::Maximize).unwrap();
    let c = ObjectiveValue::new(b(3.0), ObjectiveDirection::Maximize).unwrap();
    let d = ObjectiveValue::new(b(8.0), ObjectiveDirection::Maximize).unwrap();
    let e = ObjectiveValue::new(b(8.0), ObjectiveDirection::Minimize).unwrap();
    assert_eq!(a.better(c), Some(c));
    assert_eq!(a.better(d), Some(d));
    assert_eq!(d.better(a), Some(d));
    assert_eq!(a.better(e), None);
    assert_eq!(ObjectiveValue::new(b(f64::NAN), ObjectiveDirection::Minimize), None);
    assert_eq!(a.value(), b(3.0));
    assert_eq!(e.direction(), ObjectiveDirection::Minimize);
}


#[test]
fn objective_values_compare_numerically() {
    let zero = ObjectiveValue::new(b(0.0), ObjectiveDirection::Minimize).unwrap();
    let negative_zero = ObjectiveValue::new(b(-0.0), ObjectiveDirection::Minimize).unwrap();
    let maximize_zero = ObjectiveValue::new(b(0.0), ObjectiveDirection::Maximize).unwrap();
    let one = ObjectiveValue::new(b(1.0), ObjectiveDirection::Minimize).unwrap();
    assert_eq!(zero, negative_zero);
    assert_ne!(zero, maximize_zero);
    assert_ne!(zero, one);
}
