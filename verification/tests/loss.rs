use use_optimization::loss::{validate_inputs, LossError};

fn bits(xs: &[f64]) -> Vec<u64> {
    xs.iter().map(|x| x.to_bits()).collect()
}

#[test]
fn rejects_invalid_loss_inputs() {
    assert_eq!(validate_inputs(&[], &[]), Err(LossError::EmptyInput));
    assert_eq!(
        validate_inputs(&bits(&[1.0]), &bits(&[1.0, 2.0])),
        Err(LossError::MismatchedLengths)
    );
    assert_eq!(
        validate_inputs(&bits(&[1.0, f64::NAN]), &bits(&[1.0, 2.0])),
        Err(LossError::NonFiniteInput)
    );
}

#[test]
fn accepts_paired_finite_inputs() {
    assert_eq!(validate_inputs(&bits(&[1.0, 2.0, 3.0]), &bits(&[1.5, 2.5, 2.0])), Ok(()));
    assert_eq!(validate_inputs(&bits(&[3.0]), &bits(&[2.0])), Ok(()));
    assert_eq!(validate_inputs(&bits(&[3.0]), &[]), Err(LossError::EmptyInput));
    assert_eq!(
        validate_inputs(&bits(&[1.0]), &bits(&[f64::NEG_INFINITY])),
        Err(LossError::NonFiniteInput)
    );
}
