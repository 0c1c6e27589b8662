//! The checks in front of the loss functions over paired binary64 values.

use vstd::prelude::*;
use crate::binary64::{all_finite, all_finite_values};

verus! {

/// Why a loss could not be computed.
#[derive(Debug, Clone, Copy, PartialEq, Eq, Structural)]
pub enum LossError {
    EmptyInput,
    MismatchedLengths,
    NonFiniteInput,
}

/// The outcome of checking paired inputs: empty inputs first, then differing
/// lengths, then non-finite entries in either.
pub open spec fn inputs_outcome(actual: Seq<u64>, predicted: Seq<u64>) -> Result<(), LossError> {
    if actual.len() == 0 || predicted.len() == 0 {
        Err(LossError::EmptyInput)
    } else if actual.len() != predicted.len() {
        Err(LossError::MismatchedLengths)
    } else if !all_finite(actual) || !all_finite(predicted) {
        Err(LossError::NonFiniteInput)
    } else {
        Ok(())
    }
}

/// Checks that `actual` and `predicted` pair up: both non-empty, of one
/// length, and finite.
pub fn validate_inputs(actual: &[u64], predicted: &[u64]) -> (r: Result<(), LossError>)
    ensures
        r == inputs_outcome(actual@, predicted@),
{
    if actual.len() == 0 || predicted.len() == 0 {
        return Err(LossError::EmptyInput);
    }
    if actual.len() != predicted.len() {
        return Err(LossError::MismatchedLengths);
    }
    if !all_finite_values(actual) || !all_finite_values(predicted) {
        return Err(LossError::NonFiniteInput);
    }
    Ok(())
}

/// The checks in plain terms: an empty side gives `EmptyInput`; else sides
/// of different lengths give `MismatchedLengths`; else a non-finite entry
/// gives `NonFiniteInput`; and two non-empty finite sides of one length
/// pass.
pub proof fn lemma_inputs_outcome_plain(actual: Seq<u64>, predicted: Seq<u64>)
    ensures
        (inputs_outcome(actual, predicted) == Err::<(), LossError>(LossError::EmptyInput)) == (actual.len() == 0
            || predicted.len() == 0),
        (inputs_outcome(actual, predicted) == Err::<(), LossError>(LossError::MismatchedLengths)) == (actual.len()
            > 0 && predicted.len() > 0 && actual.len() != predicted.len()),
        (inputs_outcome(actual, predicted) == Err::<(), LossError>(LossError::NonFiniteInput)) == (actual.len() > 0
            && actual.len() == predicted.len() && !(all_finite(actual) && all_finite(predicted))),
        inputs_outcome(actual, predicted) is Ok == (actual.len() > 0 && actual.len() == predicted.len() && all_finite(actual)
            && all_finite(predicted)),
{
}

} // verus!
