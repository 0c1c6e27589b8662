use use_optimization::search_space::{
    LinspaceAction, Linspace, RangeAction, RangeSpace, RangeWalk, SearchSpaceError,
};

fn range_values(start: f64, end: f64, step: f64) -> Result<Vec<f64>, SearchSpaceError> {
    let mut walk = RangeWalk::start(RangeSpace {
        start: start.to_bits(),
        end: end.to_bits(),
        step: step.to_bits(),
    });
    loop {
        match walk.action() {
            RangeAction::ComputeTolerance { step, end, increasing } => {
                let tolerance = f64::from_bits(step) * 1.0e-12;
                let limit = if increasing {
                    f64::from_bits(end) + tolerance
                } else {
                    f64::from_bits(end) - tolerance
                };
                walk.record_tolerance(tolerance.to_bits(), limit.to_bits());
            }
            RangeAction::Advance { current, step, end, increasing } => {
                let current = f64::from_bits(current);
                let distance = (current - f64::from_bits(end)).abs();
                let next = if increasing {
                    current + f64::from_bits(step)
                } else {
                    current - f64::from_bits(step)
                };
                walk.record_advance(distance.to_bits(), next.to_bits());
            }
            RangeAction::Done => {
                return walk
                    .into_values()
                    .map(|values| values.into_iter().map(f64::from_bits).collect());
            }
        }
    }
}

fn linspace(start: f64, end: f64, points: usize) -> Result<Vec<f64>, SearchSpaceError> {
    let mut lin = Linspace::start(start.to_bits(), end.to_bits(), points);
    loop {
        match lin.action() {
            LinspaceAction::ComputeStep { start, end, intervals } => {
                let step = (f64::from_bits(end) - f64::from_bits(start)) / intervals as f64;
                lin.record_step(step.to_bits());
            }
            LinspaceAction::ComputePoint { start, step, index } => {
                let point = f64::from_bits(start) + f64::from_bits(step) * index as f64;
                lin.record_point(point.to_bits());
            }
            LinspaceAction::Done => {
                return lin
                    .into_values()
                    .map(|values| values.into_iter().map(f64::from_bits).collect());
            }
        }
    }
}

fn approx_eq(left: &[f64], right: &[f64]) {
    assert_eq!(left.len(), right.len());
    for (left_value, right_value) in left.iter().zip(right.iter()) {
        assert!(
            (left_value - right_value).abs() < 1.0e-10,
            "left={left_value}, right={right_value}"
        );
    }
}

#[test]
fn generates_ascending_values() {
    assert_eq!(range_values(0.0, 2.0, 1.0).unwrap(), vec![0.0, 1.0, 2.0]);
}

#[test]
fn generates_descending_values() {
    assert_eq!(range_values(3.0, 0.0, 1.0).unwrap(), vec![3.0, 2.0, 1.0, 0.0]);
}

#[test]
fn handles_single_point_ranges() {
    assert_eq!(range_values(2.0, 2.0, 0.5).unwrap(), vec![2.0]);
}

#[test]
fn rejects_invalid_search_spaces() {
    assert_eq!(range_values(0.0, 1.0, 0.0), Err(SearchSpaceError::InvalidStep));
    assert_eq!(
        range_values(0.0, f64::INFINITY, 1.0),
        Err(SearchSpaceError::NonFiniteInput)
    );
    assert_eq!(linspace(0.0, 1.0, 0), Err(SearchSpaceError::InvalidPointCount));
}

#[test]
fn builds_linspace_values() {
    approx_eq(&linspace(0.0, 1.0, 5).unwrap(), &[0.0, 0.25, 0.5, 0.75, 1.0]);
    approx_eq(&linspace(3.0, 1.0, 3).unwrap(), &[3.0, 2.0, 1.0]);
    assert_eq!(linspace(9.0, 5.0, 1).unwrap(), vec![9.0]);
}

#[test]
fn range_snaps_the_last_point_to_the_end() {
    // 0.1 + 0.1 + 0.1 is 0.30000000000000004; it lies within the tolerance.
    let values = range_values(0.0, 0.3, 0.1).unwrap();
    assert_eq!(values.len(), 4);
    assert_eq!(values[3], 0.3);
    // A range that does not reach its end stops before passing it.
    assert_eq!(range_values(0.0, 2.5, 1.0).unwrap(), vec![0.0, 1.0, 2.0]);
    assert_eq!(range_values(1.0, -1.0, 0.75).unwrap(), vec![1.0, 0.25, -0.5]);
}

#[test]
fn range_reports_each_error() {
    assert_eq!(range_values(0.0, 1.0, -1.0), Err(SearchSpaceError::InvalidStep));
    assert_eq!(range_values(0.0, 1.0, -0.0), Err(SearchSpaceError::InvalidStep));
    assert_eq!(range_values(f64::NAN, 1.0, 1.0), Err(SearchSpaceError::NonFiniteInput));
    assert_eq!(range_values(0.0, 1.0, f64::NAN), Err(SearchSpaceError::NonFiniteInput));
    // A non-finite step is reported before a non-positive one.
    assert_eq!(
        range_values(0.0, 1.0, f64::NEG_INFINITY),
        Err(SearchSpaceError::NonFiniteInput)
    );
    // Stepping past the largest finite number fails the walk.
    assert_eq!(
        range_values(1.0e308, 1.7e308, 1.0e308),
        Err(SearchSpaceError::NonFiniteInput)
    );
    // -0.0 and 0.0 are the same point.
    assert_eq!(range_values(-0.0, 0.0, 1.0).unwrap().len(), 1);
}

#[test]
fn linspace_has_the_requested_length_and_ends_at_end() {
    for points in 2..9 {
        let values = linspace(-1.0, 0.7, points).unwrap();
        assert_eq!(values.len(), points);
        assert_eq!(values[0], -1.0);
        assert_eq!(values[points - 1], 0.7);
    }
    assert_eq!(linspace(f64::NAN, 1.0, 3), Err(SearchSpaceError::NonFiniteInput));
    assert_eq!(linspace(0.0, f64::INFINITY, 0), Err(SearchSpaceError::NonFiniteInput));
    assert_eq!(linspace(4.0, 4.0, 2).unwrap(), vec![4.0, 4.0]);
}

#[test]
fn range_spaces_compare_numerically() {
    let a = RangeSpace { start: 0.0f64.to_bits(), end: 1.0f64.to_bits(), step: 0.5f64.to_bits() };
    let b = RangeSpace { start: (-0.0f64).to_bits(), end: 1.0f64.to_bits(), step: 0.5f64.to_bits() };
    let c = RangeSpace { start: 0.0f64.to_bits(), end: f64::NAN.to_bits(), step: 0.5f64.to_bits() };
    assert_eq!(a, b);
    assert_ne!(a, c);
    assert_ne!(c, c);
}
