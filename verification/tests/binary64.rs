use use_optimization::binary64::{
    all_finite_values, equals, is_finite, less_or_equal, less_than, total_order_key,
};

fn specials() -> Vec<f64> {
    vec![
        0.0,
        -0.0,
        1.0,
        -1.0,
        0.5,
        -2.5,
        f64::MIN_POSITIVE,
        -f64::MIN_POSITIVE,
        f64::from_bits(1),
        -f64::from_bits(1),
        f64::MAX,
        f64::MIN,
        f64::INFINITY,
        f64::NEG_INFINITY,
        f64::NAN,
        -f64::NAN,
        f64::from_bits(0x7ff0_0000_0000_0001),
        1e300,
        -1e-300,
        3.0,
    ]
}

#[test]
fn finiteness_matches_native_floats() {
    for x in specials() {
        assert_eq!(is_finite(x.to_bits()), x.is_finite(), "{x}");
    }
}

#[test]
fn comparisons_match_native_floats() {
    for x in specials() {
        for y in specials() {
            let (a, b) = (x.to_bits(), y.to_bits());
            assert_eq!(less_than(a, b), x < y, "{x} < {y}");
            assert_eq!(less_or_equal(a, b), x <= y, "{x} <= {y}");
            assert_eq!(equals(a, b), x == y, "{x} == {y}");
        }
    }
}

#[test]
fn total_order_keys_match_total_cmp() {
    for x in specials() {
        for y in specials() {
            let (a, b) = (x.to_bits(), y.to_bits());
            assert_eq!(
                total_order_key(a).cmp(&total_order_key(b)),
                x.total_cmp(&y),
                "{x} vs {y}"
            );
        }
    }
    assert_eq!(total_order_key(0.0f64.to_bits()), 0);
    assert_eq!(total_order_key((-0.0f64).to_bits()), -1);
    assert_eq!(total_order_key(f64::from_bits(1).to_bits()), 1);
}

#[test]
fn all_finite_values_checks_every_entry() {
    let ok: Vec<u64> = [1.0, -2.0, 0.0].iter().map(|x: &f64| x.to_bits()).collect();
    let bad: Vec<u64> = [1.0, f64::INFINITY].iter().map(|x: &f64| x.to_bits()).collect();
    assert!(all_finite_values(&ok));
    assert!(!all_finite_values(&bad));
    assert!(all_finite_values(&[]));
}
