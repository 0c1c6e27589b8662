use use_optimization::grid_search::{GridSearchResult1D, GridSearchResult2D};
use std::cell::Cell;
use use_optimization::grid_search::{
    grid_search_1d, grid_search_2d, GridSearch1D, GridSearchAction1D,
};
use use_optimization::objective::ObjectiveDirection;

fn bits(xs: &[f64]) -> Vec<u64> {
    xs.iter().map(|x| x.to_bits()).collect()
}

/// Runs a one-dimensional search over `f64` values; returns the best value
/// and score, and the number of objective calls.
fn grid_1d(
    values: &[f64],
    objective: impl Fn(f64) -> f64,
    direction: ObjectiveDirection,
) -> (Option<(f64, f64)>, usize) {
    let calls = Cell::new(0);
    let scored = |v: u64| {
        calls.set(calls.get() + 1);
        objective(f64::from_bits(v)).to_bits()
    };
    let result = grid_search_1d(&bits(values), scored, direction)
        .map(|r| (f64::from_bits(r.best_value), f64::from_bits(r.best_score)));
    (result, calls.get())
}

fn grid_2d(
    xs: &[f64],
    ys: &[f64],
    objective: impl Fn(f64, f64) -> f64,
    direction: ObjectiveDirection,
) -> (Option<(f64, f64, f64)>, usize) {
    let calls = Cell::new(0);
    let scored = |x: u64, y: u64| {
        calls.set(calls.get() + 1);
        objective(f64::from_bits(x), f64::from_bits(y)).to_bits()
    };
    let result = grid_search_2d(&bits(xs), &bits(ys), scored, direction).map(|r| {
        (f64::from_bits(r.best_x), f64::from_bits(r.best_y), f64::from_bits(r.best_score))
    });
    (result, calls.get())
}

#[test]
fn finds_best_one_dimensional_candidate() {
    let (result, _) = grid_1d(
        &[0.0, 1.0, 2.0, 3.0],
        |value| -(value - 2.0) * (value - 2.0),
        ObjectiveDirection::Maximize,
    );
    let (best_value, best_score) = result.unwrap();

    assert_eq!(best_value, 2.0);
    assert_eq!(best_score, 0.0);
}

#[test]
fn finds_best_two_dimensional_candidate() {
    let (result, _) = grid_2d(
        &[0.0, 1.0, 2.0],
        &[-2.0, -1.0, 0.0],
        |x, y| -((x - 1.0) * (x - 1.0) + (y + 1.0) * (y + 1.0)),
        ObjectiveDirection::Maximize,
    );
    let (best_x, best_y, best_score) = result.unwrap();

    assert_eq!(best_x, 1.0);
    assert_eq!(best_y, -1.0);
    assert_eq!(best_score, 0.0);
}

#[test]
fn supports_minimization() {
    let (result, _) = grid_1d(
        &[0.0, 1.0, 2.0, 3.0],
        |value| (value - 1.0) * (value - 1.0),
        ObjectiveDirection::Minimize,
    );

    assert_eq!(result.unwrap().0, 1.0);
}

#[test]
fn returns_none_for_invalid_inputs() {
    assert_eq!(grid_1d(&[], |value| value, ObjectiveDirection::Maximize).0, None);
    assert_eq!(
        grid_1d(&[1.0, f64::NAN], |value| value, ObjectiveDirection::Maximize).0,
        None
    );
    assert_eq!(
        grid_2d(&[1.0], &[2.0], |_x, _y| f64::NAN, ObjectiveDirection::Maximize).0,
        None
    );
}

#[test]
fn grid_keeps_the_first_of_equal_scores() {
    let (result, calls) = grid_1d(&[-2.0, 2.0, 0.5], |v| v * v, ObjectiveDirection::Maximize);
    assert_eq!(result, Some((-2.0, 4.0)));
    assert_eq!(calls, 3);
    let (result, _) = grid_2d(
        &[1.0, -1.0],
        &[3.0, -3.0],
        |x, y| x * x + y * y,
        ObjectiveDirection::Minimize,
    );
    assert_eq!(result, Some((1.0, 3.0, 10.0)));
}

#[test]
fn grid_stops_at_the_first_non_finite_score() {
    let (result, calls) = grid_1d(
        &[0.0, 1.0, 2.0, 3.0],
        |v| if v == 1.0 { f64::INFINITY } else { v },
        ObjectiveDirection::Minimize,
    );
    assert_eq!(result, None);
    assert_eq!(calls, 2);
    let (result, calls) = grid_1d(&[1.0, f64::NAN], |v| v, ObjectiveDirection::Minimize);
    assert_eq!(result, None);
    assert_eq!(calls, 0);
    let (result, calls) = grid_2d(&[0.0, 1.0], &[], |x, _| x, ObjectiveDirection::Minimize);
    assert_eq!(result, None);
    assert_eq!(calls, 0);
}

#[test]
fn grid_2d_visits_points_row_by_row() {
    let (result, calls) = grid_2d(
        &[0.0, 1.0, 2.0],
        &[10.0, 20.0],
        |x, y| x * 100.0 + y,
        ObjectiveDirection::Maximize,
    );
    assert_eq!(result, Some((2.0, 20.0, 220.0)));
    assert_eq!(calls, 6);
    let (result, calls) = grid_2d(&[5.0], &[7.0], |x, y| x - y, ObjectiveDirection::Minimize);
    assert_eq!(result, Some((5.0, 7.0, -2.0)));
    assert_eq!(calls, 1);
}

#[test]
fn grid_state_machine_asks_for_each_candidate_in_order() {
    let values = bits(&[3.0, 1.0, 2.0]);
    let mut search = GridSearch1D::start(&values, ObjectiveDirection::Minimize);
    assert_eq!(search.action(), GridSearchAction1D::Evaluate(3.0f64.to_bits()));
    search.record_score(9.0f64.to_bits());
    assert_eq!(search.action(), GridSearchAction1D::Evaluate(1.0f64.to_bits()));
    search.record_score(1.0f64.to_bits());
    assert_eq!(search.action(), GridSearchAction1D::Evaluate(2.0f64.to_bits()));
    search.record_score(1.0f64.to_bits());
    match search.action() {
        GridSearchAction1D::Finished(Some(r)) => {
            assert_eq!(r.best_value, 1.0f64.to_bits());
            assert_eq!(r.best_score, 1.0f64.to_bits());
        }
        other => panic!("unexpected {other:?}"),
    }
    let mut failing = GridSearch1D::start(&values, ObjectiveDirection::Minimize);
    failing.record_score(f64::NAN.to_bits());
    assert_eq!(failing.action(), GridSearchAction1D::Finished(None));
}

#[test]
fn grid_results_compare_numerically() {
    let a = GridSearchResult1D { best_value: 0.0f64.to_bits(), best_score: 2.0f64.to_bits() };
    let b = GridSearchResult1D { best_value: (-0.0f64).to_bits(), best_score: 2.0f64.to_bits() };
    assert_eq!(a, b);
    let c = GridSearchResult2D { best_x: 1.0f64.to_bits(), best_y: 0.0f64.to_bits(), best_score: 2.0f64.to_bits() };
    let d = GridSearchResult2D { best_x: 1.0f64.to_bits(), best_y: (-0.0f64).to_bits(), best_score: 2.0f64.to_bits() };
    let e = GridSearchResult2D { best_x: 1.0f64.to_bits(), best_y: 0.0f64.to_bits(), best_score: 3.0f64.to_bits() };
    assert_eq!(c, d);
    assert_ne!(c, e);
}
