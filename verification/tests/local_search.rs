use use_optimization::local_search::LocalSearchResult;
use use_optimization::local_search::{
    LocalSearch, LocalSearchAction, LocalSearchConfig, LocalSearchError,
};
use use_optimization::objective::ObjectiveDirection;

struct Outcome {
    best_value: f64,
    best_score: f64,
    iterations: usize,
}

fn local_search_1d(
    initial_value: f64,
    step_size: f64,
    max_iterations: usize,
    direction: ObjectiveDirection,
    objective: impl Fn(f64) -> f64,
) -> Result<Outcome, LocalSearchError> {
    let mut search = LocalSearch::start(LocalSearchConfig {
        initial_value: initial_value.to_bits(),
        step_size: step_size.to_bits(),
        max_iterations,
        direction,
    });
    loop {
        match search.action() {
            LocalSearchAction::EvaluateInitial(value) => {
                search.record_initial_score(objective(f64::from_bits(value)).to_bits());
            }
            LocalSearchAction::ComputeNeighbors { value, step } => {
                let (value, step) = (f64::from_bits(value), f64::from_bits(step));
                search.record_neighbors((value - step).to_bits(), (value + step).to_bits());
            }
            LocalSearchAction::EvaluateNeighbors { left, right } => {
                let left_score = objective(f64::from_bits(left));
                let right_score = objective(f64::from_bits(right));
                search.record_neighbor_scores(left_score.to_bits(), right_score.to_bits());
            }
            LocalSearchAction::Finished(outcome) => {
                return outcome.map(|r| Outcome {
                    best_value: f64::from_bits(r.best_value),
                    best_score: f64::from_bits(r.best_score),
                    iterations: r.iterations,
                });
            }
        }
    }
}

#[test]
fn climbs_toward_better_scores_for_maximization() {
    let result = local_search_1d(0.0, 1.0, 10, ObjectiveDirection::Maximize, |value| {
        -(value - 3.0) * (value - 3.0)
    })
    .unwrap();

    assert_eq!(result.best_value, 3.0);
    assert_eq!(result.best_score, 0.0);
    assert!(result.iterations <= 10);
}

#[test]
fn climbs_toward_better_scores_for_minimization() {
    let result = local_search_1d(5.0, 1.0, 10, ObjectiveDirection::Minimize, |value| {
        (value - 2.0) * (value - 2.0)
    })
    .unwrap();

    assert_eq!(result.best_value, 2.0);
    assert_eq!(result.best_score, 0.0);
}

#[test]
fn rejects_invalid_configuration() {
    assert_eq!(
        local_search_1d(f64::NAN, 1.0, 10, ObjectiveDirection::Maximize, |value| value).err(),
        Some(LocalSearchError::InvalidInitialValue)
    );
    assert_eq!(
        local_search_1d(0.0, 0.0, 10, ObjectiveDirection::Maximize, |value| value).err(),
        Some(LocalSearchError::InvalidStepSize)
    );
    assert_eq!(
        local_search_1d(0.0, 1.0, 0, ObjectiveDirection::Maximize, |value| value).err(),
        Some(LocalSearchError::InvalidIterationCount)
    );
}

#[test]
fn rejects_non_finite_objective_scores() {
    assert_eq!(
        local_search_1d(0.0, 1.0, 10, ObjectiveDirection::Maximize, |_value| f64::NAN).err(),
        Some(LocalSearchError::NonFiniteScore)
    );
}

#[test]
fn local_search_counts_iterations_exactly() {
    // From 0 towards 3: three moves, then a fourth iteration finds no better
    // neighbour.
    let result = local_search_1d(0.0, 1.0, 10, ObjectiveDirection::Maximize, |v| {
        -(v - 3.0) * (v - 3.0)
    })
    .unwrap();
    assert_eq!(result.iterations, 4);
    // With two iterations allowed the search stops after two moves.
    let result = local_search_1d(0.0, 1.0, 2, ObjectiveDirection::Maximize, |v| {
        -(v - 3.0) * (v - 3.0)
    })
    .unwrap();
    assert_eq!(result.best_value, 2.0);
    assert_eq!(result.best_score, -1.0);
    assert_eq!(result.iterations, 2);
}

#[test]
fn local_search_prefers_right_only_when_strictly_better() {
    // Both neighbours score equally: the left one is taken.
    let result = local_search_1d(0.0, 1.0, 1, ObjectiveDirection::Maximize, |v| v * v).unwrap();
    assert_eq!(result.best_value, -1.0);
    assert_eq!(result.best_score, 1.0);
    assert_eq!(result.iterations, 1);
    // The right neighbour beats the left one.
    let result = local_search_1d(0.0, 1.0, 1, ObjectiveDirection::Maximize, |v| v).unwrap();
    assert_eq!(result.best_value, 1.0);
}

#[test]
fn local_search_reports_each_configuration_error_in_order() {
    assert_eq!(
        local_search_1d(f64::INFINITY, -1.0, 0, ObjectiveDirection::Minimize, |v| v).err(),
        Some(LocalSearchError::InvalidInitialValue)
    );
    assert_eq!(
        local_search_1d(0.0, f64::NAN, 0, ObjectiveDirection::Minimize, |v| v).err(),
        Some(LocalSearchError::InvalidStepSize)
    );
    assert_eq!(
        local_search_1d(0.0, -2.0, 5, ObjectiveDirection::Minimize, |v| v).err(),
        Some(LocalSearchError::InvalidStepSize)
    );
}

#[test]
fn local_search_fails_on_a_non_finite_neighbour_score() {
    assert_eq!(
        local_search_1d(0.0, 1.0, 5, ObjectiveDirection::Minimize, |v| if v > 0.5 {
            f64::INFINITY
        } else {
            v
        })
        .err(),
        Some(LocalSearchError::NonFiniteScore)
    );
}

#[test]
fn local_search_stops_at_non_finite_neighbours() {
    // The right neighbour of the largest finite number overflows: the search
    // ends where it stands, after beginning one iteration.
    let result = local_search_1d(f64::MAX, f64::MAX, 5, ObjectiveDirection::Minimize, |_| 1.0)
        .unwrap();
    assert_eq!(result.best_value, f64::MAX);
    assert_eq!(result.best_score, 1.0);
    assert_eq!(result.iterations, 1);
}

#[test]
fn local_search_stops_when_the_move_does_not_change_the_value() {
    // A step far below the spacing of floats around 1e20 leaves both
    // neighbours equal to the current value.
    let result = local_search_1d(1.0e20, 1.0, 5, ObjectiveDirection::Maximize, |v| {
        if v == 1.0e20 { 0.0 } else { 1.0 }
    })
    .unwrap();
    assert_eq!(result.best_value, 1.0e20);
    assert_eq!(result.iterations, 1);
}

#[test]
fn local_search_values_compare_numerically() {
    let a = LocalSearchResult { best_value: 0.0f64.to_bits(), best_score: 1.0f64.to_bits(), iterations: 2 };
    let b = LocalSearchResult { best_value: (-0.0f64).to_bits(), best_score: 1.0f64.to_bits(), iterations: 2 };
    let c = LocalSearchResult { best_value: 0.0f64.to_bits(), best_score: 1.0f64.to_bits(), iterations: 3 };
    assert_eq!(a, b);
    assert_ne!(a, c);
    let config = LocalSearchConfig {
        initial_value: 0.0f64.to_bits(),
        step_size: 1.0f64.to_bits(),
        max_iterations: 4,
        direction: ObjectiveDirection::Maximize,
    };
    let same = LocalSearchConfig { initial_value: (-0.0f64).to_bits(), ..config };
    let other = LocalSearchConfig { direction: ObjectiveDirection::Minimize, ..config };
    assert_eq!(config, same);
    assert_ne!(config, other);
}

#[test]
fn local_search_state_machine_records_a_run() {
    let mut search = LocalSearch::start(LocalSearchConfig {
        initial_value: 0.0f64.to_bits(),
        step_size: 1.0f64.to_bits(),
        max_iterations: 3,
        direction: ObjectiveDirection::Minimize,
    });
    assert_eq!(search.action(), LocalSearchAction::EvaluateInitial(0.0f64.to_bits()));
    search.record_initial_score(5.0f64.to_bits());
    assert_eq!(
        search.action(),
        LocalSearchAction::ComputeNeighbors { value: 0.0f64.to_bits(), step: 1.0f64.to_bits() }
    );
    search.record_neighbors((-1.0f64).to_bits(), 1.0f64.to_bits());
    search.record_neighbor_scores(3.0f64.to_bits(), 7.0f64.to_bits());
    assert_eq!(
        search.action(),
        LocalSearchAction::ComputeNeighbors { value: (-1.0f64).to_bits(), step: 1.0f64.to_bits() }
    );
    search.record_neighbors((-2.0f64).to_bits(), 0.0f64.to_bits());
    search.record_neighbor_scores(4.0f64.to_bits(), 5.0f64.to_bits());
    match search.action() {
        LocalSearchAction::Finished(Ok(r)) => {
            assert_eq!(r.best_value, (-1.0f64).to_bits());
            assert_eq!(r.best_score, 3.0f64.to_bits());
            assert_eq!(r.iterations, 2);
        }
        other => panic!("unexpected {other:?}"),
    }
}
