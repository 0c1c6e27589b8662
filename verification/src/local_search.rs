//! One-dimensional hill climbing, as a state machine.
//!
//! The search looks at the left and right neighbour of the current value,
//! one step away, and moves only to a strictly better one. It needs three
//! things done outside: the objective evaluated, and the neighbours computed
//! (`value - step`, `value + step`). A driver asks [`LocalSearch::action`]
//! what to do, does it, and reports back through the matching `record_`
//! method, until the action is [`LocalSearchAction::Finished`].

use vstd::prelude::*;
use crate::binary64::{finite, float_eq, float_lt, order_key, is_finite, less_or_equal, equals};
use crate::objective::{ObjectiveDirection, spec_is_better, is_better};

verus! {

/// Where the search starts, how far it steps, how many moves it may try, and
/// in which direction scores improve.
#[derive(Debug, Clone, Copy)]
pub struct LocalSearchConfig {
    pub initial_value: u64,
    pub step_size: u64,
    pub max_iterations: usize,
    pub direction: ObjectiveDirection,
}

/// The value where the search stopped, its score, and the number of
/// iterations begun.
#[derive(Debug, Clone, Copy)]
pub struct LocalSearchResult {
    pub best_value: u64,
    pub best_score: u64,
    pub iterations: usize,
}

/// Two configurations are equal when their values are numerically equal and
/// their counts and directions agree.
impl PartialEq for LocalSearchConfig {
    fn eq(&self, other: &Self) -> (r: bool) {
        equals(self.initial_value, other.initial_value) && equals(self.step_size, other.step_size)
            && self.max_iterations == other.max_iterations && self.direction == other.direction
    }
}

impl vstd::std_specs::cmp::PartialEqSpecImpl for LocalSearchConfig {
    open spec fn obeys_eq_spec() -> bool {
        true
    }

    open spec fn eq_spec(&self, other: &Self) -> bool {
        &&& float_eq(self.initial_value, other.initial_value)
        &&& float_eq(self.step_size, other.step_size)
        &&& self.max_iterations == other.max_iterations
        &&& self.direction == other.direction
    }
}

/// Two results are equal when their values and scores are numerically equal
/// and their iteration counts agree.
impl PartialEq for LocalSearchResult {
    fn eq(&self, other: &Self) -> (r: bool) {
        equals(self.best_value, other.best_value) && equals(self.best_score, other.best_score)
            && self.iterations == other.iterations
    }
}

impl vstd::std_specs::cmp::PartialEqSpecImpl for LocalSearchResult {
    open spec fn obeys_eq_spec() -> bool {
        true
    }

    open spec fn eq_spec(&self, other: &Self) -> bool {
        &&& float_eq(self.best_value, other.best_value)
        &&& float_eq(self.best_score, other.best_score)
        &&& self.iterations == other.iterations
    }
}

/// Why a search could not run or complete.
#[derive(Debug, Clone, Copy, PartialEq, Eq, Structural)]
pub enum LocalSearchError {
    InvalidInitialValue,
    InvalidStepSize,
    InvalidIterationCount,
    NonFiniteScore,
}

/// What the driver must do next.
#[derive(Debug, Clone, Copy, PartialEq)]
pub enum LocalSearchAction {
    /// Evaluate the objective at this value; report with `record_initial_score`.
    EvaluateInitial(u64),
    /// Compute `value - step` and `value + step`; report with `record_neighbors`.
    ComputeNeighbors { value: u64, step: u64 },
    /// Evaluate the objective at `left`, then at `right`; report both with
    /// `record_neighbor_scores`.
    EvaluateNeighbors { left: u64, right: u64 },
    /// The search is over.
    Finished(Result<LocalSearchResult, LocalSearchError>),
}

/// The check of a configuration: the initial value must be finite, then the
/// step finite and positive, then at least one iteration allowed.
pub open spec fn config_outcome(config: LocalSearchConfig) -> Result<(), LocalSearchError> {
    if !finite(config.initial_value) {
        Err(LocalSearchError::InvalidInitialValue)
    } else if !finite(config.step_size) || order_key(config.step_size) <= 0 {
        Err(LocalSearchError::InvalidStepSize)
    } else if config.max_iterations == 0 {
        Err(LocalSearchError::InvalidIterationCount)
    } else {
        Ok(())
    }
}

/// A configuration is refused exactly when the initial value is not finite
/// (`InvalidInitialValue`), else when the step is not a finite number above
/// zero (`InvalidStepSize`), else when no iteration is allowed
/// (`InvalidIterationCount`); every other configuration is accepted.
pub proof fn lemma_config_outcome(config: LocalSearchConfig)
    ensures
        (config_outcome(config) == Err::<(), LocalSearchError>(
            LocalSearchError::InvalidInitialValue,
        )) == !finite(config.initial_value),
        (config_outcome(config) == Err::<(), LocalSearchError>(LocalSearchError::InvalidStepSize))
            == (finite(config.initial_value) && !(finite(config.step_size) && float_lt(
            0,
            config.step_size,
        ))),
        (config_outcome(config) == Err::<(), LocalSearchError>(
            LocalSearchError::InvalidIterationCount,
        )) == (finite(config.initial_value) && finite(config.step_size) && float_lt(
            0,
            config.step_size,
        ) && config.max_iterations == 0),
        config_outcome(config) is Ok == (finite(config.initial_value) && finite(config.step_size)
            && float_lt(0, config.step_size) && config.max_iterations >= 1),
        config_outcome(config) != Err::<(), LocalSearchError>(LocalSearchError::NonFiniteScore),
{
}

/// The search ends well at `value` with `score` after `iterations`.
pub open spec fn finished_at(value: u64, score: u64, iterations: usize) -> LocalSearchAction {
    LocalSearchAction::Finished(
        Ok(LocalSearchResult { best_value: value, best_score: score, iterations }),
    )
}

/// At the head of the loop: another iteration begins while fewer than
/// `max_iterations` have begun, else the search ends.
pub open spec fn next_iteration_action(
    config: LocalSearchConfig,
    value: u64,
    score: u64,
    iterations: usize,
) -> LocalSearchAction {
    if iterations < config.max_iterations {
        LocalSearchAction::ComputeNeighbors { value, step: config.step_size }
    } else {
        finished_at(value, score, iterations)
    }
}

/// The iteration count after the head of the loop.
pub open spec fn next_iteration_count(config: LocalSearchConfig, iterations: usize) -> usize {
    if iterations < config.max_iterations {
        (iterations + 1) as usize
    } else {
        iterations
    }
}

/// The point the search prefers among the current one and its neighbours:
/// the left one when strictly better than the current, then the right one
/// when strictly better than that choice.
pub open spec fn preferred_move(
    value: u64,
    score: u64,
    left: u64,
    left_score: u64,
    right: u64,
    right_score: u64,
    direction: ObjectiveDirection,
) -> (u64, u64) {
    let (v, s) = if spec_is_better(left_score, score, direction) {
        (left, left_score)
    } else {
        (value, score)
    };
    if spec_is_better(right_score, s, direction) {
        (right, right_score)
    } else {
        (v, s)
    }
}

/// The preferred point is a best one among the current point and its two
/// neighbours: it is one of the three, no score among the three is strictly
/// better than its score, and ties go to the current point, then to the
/// left neighbour.
pub proof fn lemma_preferred_move_is_best(
    value: u64,
    score: u64,
    left: u64,
    left_score: u64,
    right: u64,
    right_score: u64,
    direction: ObjectiveDirection,
)
    requires
        finite(score),
        finite(left_score),
        finite(right_score),
    ensures
        ({
            let (v, s) = preferred_move(
                value,
                score,
                left,
                left_score,
                right,
                right_score,
                direction,
            );
            &&& (v, s) == (value, score) || (v, s) == (left, left_score) || (v, s) == (
                right,
                right_score,
            )
            &&& !spec_is_better(score, s, direction)
            &&& !spec_is_better(left_score, s, direction)
            &&& !spec_is_better(right_score, s, direction)
            &&& (!spec_is_better(left_score, score, direction) && !spec_is_better(
                right_score,
                score,
                direction,
            )) ==> (v, s) == (value, score)
            &&& (spec_is_better(left_score, score, direction) && !spec_is_better(
                right_score,
                left_score,
                direction,
            )) ==> (v, s) == (left, left_score)
        }),
{
    crate::objective::lemma_is_better_is_numeric_order(left_score, score);
    crate::objective::lemma_is_better_is_numeric_order(right_score, score);
    crate::objective::lemma_is_better_is_numeric_order(right_score, left_score);
    crate::objective::lemma_is_better_is_numeric_order(score, left_score);
    crate::objective::lemma_is_better_is_numeric_order(score, right_score);
    crate::objective::lemma_is_better_is_numeric_order(left_score, right_score);
}

/// A one-dimensional hill-climbing search in progress.
pub struct LocalSearch {
    config: LocalSearchConfig,
    value: u64,
    score: u64,
    iterations: usize,
    action: LocalSearchAction,
    evaluations: Ghost<Seq<(u64, u64)>>,
    neighbors: Ghost<Seq<(u64, u64, u64)>>,
    settled: Ghost<bool>,
}

impl LocalSearch {
    #[verifier::type_invariant]
    spec fn well_formed(self) -> bool {
        let ev = self.evaluations@;
        let nb = self.neighbors@;
        &&& self.iterations <= self.config.max_iterations
        &&& self.run_laws()
        &&& match self.action {
            LocalSearchAction::EvaluateInitial(v) => {
                &&& config_outcome(self.config) is Ok
                &&& v == self.config.initial_value
                &&& self.iterations == 0
                &&& ev.len() == 0
                &&& nb.len() == 0
            },
            LocalSearchAction::ComputeNeighbors { value, step } => {
                &&& config_outcome(self.config) is Ok
                &&& value == self.value
                &&& step == self.config.step_size
                &&& finite(self.value)
                &&& finite(self.score)
                &&& self.iterations >= 1
                &&& ev.len() == 2 * self.iterations - 1
                &&& nb.len() == self.iterations - 1
                &&& self.holds_evaluated_point()
            },
            LocalSearchAction::EvaluateNeighbors { left, right } => {
                &&& config_outcome(self.config) is Ok
                &&& finite(self.value)
                &&& finite(self.score)
                &&& finite(left)
                &&& finite(right)
                &&& self.iterations >= 1
                &&& ev.len() == 2 * self.iterations - 1
                &&& nb.len() == self.iterations
                &&& nb.last() == (self.value, left, right)
                &&& self.holds_evaluated_point()
            },
            LocalSearchAction::Finished(outcome) => match outcome {
                Ok(r) => finite(r.best_value) && finite(r.best_score) && r.iterations
                    <= self.config.max_iterations,
                Err(_) => true,
            },
        }
    }

    /// The current point was scored by the objective, and it is the initial
    /// point or strictly better than it.
    spec fn holds_evaluated_point(self) -> bool {
        let ev = self.evaluations@;
        &&& ev.len() > 0
        &&& ev.contains((self.value, self.score))
        &&& (self.value, self.score) == ev[0] || spec_is_better(
            self.score,
            ev[0].1,
            self.config.direction,
        )
    }

    /// The objective calls asked for so far, in order: each point handed to
    /// the objective with the score reported for it.
    pub closed spec fn spec_evaluations(self) -> Seq<(u64, u64)> {
        self.evaluations@
    }

    /// The neighbours reported so far, in order: each point whose
    /// neighbours were asked for, with the left and right one reported.
    pub closed spec fn spec_neighbors(self) -> Seq<(u64, u64, u64)> {
        self.neighbors@
    }

    /// The search ended because no neighbour was preferred to the current
    /// point.
    pub closed spec fn spec_settled(self) -> bool {
        self.settled@
    }

    /// What holds of every run, at every point of it:
    /// - the objective was called at most twice per iteration begun, plus
    ///   once, first at the initial value, and each later pair of calls was
    ///   at the left and then the right neighbour reported for a point;
    /// - a search that failed after a valid configuration did so because a
    ///   score the objective returned was not finite;
    /// - a search that ended well returned a point the objective scored,
    ///   with that score, which is the initial point or strictly better
    ///   than it; when it stopped without moving, its preferred neighbour
    ///   was numerically the point itself; and when it stopped before its
    ///   budget otherwise, the neighbours reported were not finite.
    pub open spec fn run_laws(self) -> bool {
        let config = self.spec_config();
        let ev = self.spec_evaluations();
        let nb = self.spec_neighbors();
        &&& ev.len() <= 2 * self.spec_iterations() + 1
        &&& ev.len() > 0 ==> ev[0].0 == config.initial_value
        &&& forall|k: int|
            0 <= k < nb.len() && 2 * k + 2 < ev.len() ==> ev[2 * k + 1].0 == (#[trigger] nb[k]).1
                && ev[2 * k + 2].0 == nb[k].2
        &&& match self.spec_action() {
            LocalSearchAction::Finished(Err(e)) => {
                ||| (config_outcome(config) == Err::<(), LocalSearchError>(e) && ev.len() == 0)
                ||| (e == LocalSearchError::NonFiniteScore && exists|i: int|
                    0 <= i < ev.len() && !finite(#[trigger] ev[i].1))
            },
            LocalSearchAction::Finished(Ok(r)) => {
                &&& 1 <= r.iterations <= config.max_iterations
                &&& r.iterations == self.spec_iterations()
                &&& finite(r.best_value)
                &&& finite(r.best_score)
                &&& ev.contains((r.best_value, r.best_score))
                &&& (r.best_value, r.best_score) == ev[0] || spec_is_better(
                    r.best_score,
                    ev[0].1,
                    config.direction,
                )
                &&& self.spec_settled() ==> {
                    &&& ev.len() >= 3
                    &&& nb.len() >= 1
                    &&& nb.last() == (r.best_value, ev[ev.len() - 2].0, ev[ev.len() - 1].0)
                    &&& float_eq(
                        preferred_move(
                            r.best_value,
                            r.best_score,
                            ev[ev.len() - 2].0,
                            ev[ev.len() - 2].1,
                            ev[ev.len() - 1].0,
                            ev[ev.len() - 1].1,
                            config.direction,
                        ).0,
                        r.best_value,
                    )
                }
                &&& (!self.spec_settled() && r.iterations < config.max_iterations) ==> {
                    &&& nb.len() >= 1
                    &&& nb.last().0 == r.best_value
                    &&& (!finite(nb.last().1) || !finite(nb.last().2))
                }
            },
            _ => true,
        }
    }

    /// The configuration searched with.
    pub closed spec fn spec_config(self) -> LocalSearchConfig {
        self.config
    }

    /// The current value.
    pub closed spec fn spec_value(self) -> u64 {
        self.value
    }

    /// The score of the current value.
    pub closed spec fn spec_score(self) -> u64 {
        self.score
    }

    /// The number of iterations begun.
    pub closed spec fn spec_iterations(self) -> usize {
        self.iterations
    }

    /// What the driver must do next.
    pub closed spec fn spec_action(self) -> LocalSearchAction {
        self.action
    }

    /// A bound on the number of reports still to come; zero exactly when
    /// the search is over.
    pub open spec fn steps_left(self) -> nat {
        let max = self.spec_config().max_iterations;
        let i = self.spec_iterations();
        match self.spec_action() {
            LocalSearchAction::EvaluateInitial(_) => (2 * max + 1) as nat,
            LocalSearchAction::ComputeNeighbors { .. } => (2 * (max - i) + 2) as nat,
            LocalSearchAction::EvaluateNeighbors { .. } => (2 * (max - i) + 1) as nat,
            LocalSearchAction::Finished(_) => 0,
        }
    }

    /// Starts a search: it ends at once with the configuration's error, or
    /// asks for the score of the initial value.
    pub fn start(config: LocalSearchConfig) -> (s: Self)
        ensures
            s.spec_config() == config,
            s.spec_iterations() == 0,
            s.spec_evaluations() == Seq::<(u64, u64)>::empty(),
            s.run_laws(),
            s.spec_action() == (match config_outcome(config) {
                Err(e) => LocalSearchAction::Finished(Err(e)),
                Ok(_) => LocalSearchAction::EvaluateInitial(config.initial_value),
            }),
    {
        let outcome = if !is_finite(config.initial_value) {
            Err(LocalSearchError::InvalidInitialValue)
        } else if !is_finite(config.step_size) || less_or_equal(config.step_size, 0) {
            Err(LocalSearchError::InvalidStepSize)
        } else if config.max_iterations == 0 {
            Err(LocalSearchError::InvalidIterationCount)
        } else {
            Ok(())
        };
        let action = match outcome {
            Err(e) => LocalSearchAction::Finished(Err(e)),
            Ok(_) => LocalSearchAction::EvaluateInitial(config.initial_value),
        };
        LocalSearch {
            config,
            value: config.initial_value,
            score: 0,
            iterations: 0,
            action,
            evaluations: Ghost(Seq::empty()),
            neighbors: Ghost(Seq::empty()),
            settled: Ghost(false),
        }
    }

    /// What the driver must do next.
    pub fn action(&self) -> (r: LocalSearchAction)
        ensures
            r == self.spec_action(),
    {
        self.action
    }

    /// Takes the score of the initial value: a non-finite score ends the
    /// search with `NonFiniteScore`; else the first iteration begins there.
    pub fn record_initial_score(&mut self, score: u64)
        requires
            old(self).spec_action() is EvaluateInitial,
        ensures
            final(self).spec_config() == old(self).spec_config(),
            final(self).steps_left() < old(self).steps_left(),
            final(self).spec_evaluations() == seq![(old(self).spec_config().initial_value, score)],
            final(self).run_laws(),
            !finite(score) ==> final(self).spec_action() == LocalSearchAction::Finished(
                Err(LocalSearchError::NonFiniteScore),
            ),
            finite(score) ==> {
                &&& final(self).spec_value() == old(self).spec_config().initial_value
                &&& final(self).spec_score() == score
                &&& final(self).spec_iterations() == 1
                &&& final(self).spec_action() == (LocalSearchAction::ComputeNeighbors {
                    value: old(self).spec_config().initial_value,
                    step: old(self).spec_config().step_size,
                })
            },
    {
        proof {
            use_type_invariant(&*self);
        }
        let config = self.config;
        let ghost evaluations = seq![(config.initial_value, score)];
        proof {
            assert(evaluations[0] == (config.initial_value, score));
            assert(evaluations.len() == 1);
        }
        if !is_finite(score) {
            proof {
                assert(!finite(evaluations[0].1));
            }
            *self = LocalSearch {
                config,
                value: self.value,
                score: self.score,
                iterations: self.iterations,
                action: LocalSearchAction::Finished(Err(LocalSearchError::NonFiniteScore)),
                evaluations: Ghost(evaluations),
                neighbors: Ghost(Seq::empty()),
                settled: Ghost(false),
            };
            return;
        }
        proof {
            assert(evaluations[0] == (config.initial_value, score));
        }
        *self = LocalSearch {
            config,
            value: config.initial_value,
            score,
            iterations: 1,
            action: LocalSearchAction::ComputeNeighbors {
                value: config.initial_value,
                step: config.step_size,
            },
            evaluations: Ghost(evaluations),
            neighbors: Ghost(Seq::empty()),
            settled: Ghost(false),
        };
    }

    /// Takes the two neighbours of the current value: when either is not
    /// finite the search ends where it stands; else both are to be scored.
    pub fn record_neighbors(&mut self, left: u64, right: u64)
        requires
            old(self).spec_action() is ComputeNeighbors,
        ensures
            final(self).spec_config() == old(self).spec_config(),
            final(self).spec_value() == old(self).spec_value(),
            final(self).spec_score() == old(self).spec_score(),
            final(self).spec_iterations() == old(self).spec_iterations(),
            final(self).steps_left() < old(self).steps_left(),
            final(self).spec_evaluations() == old(self).spec_evaluations(),
            final(self).spec_neighbors() == old(self).spec_neighbors().push(
                (old(self).spec_value(), left, right),
            ),
            final(self).run_laws(),
            final(self).spec_action() == (if !finite(left) || !finite(right) {
                finished_at(old(self).spec_value(), old(self).spec_score(), old(self).spec_iterations())
            } else {
                LocalSearchAction::EvaluateNeighbors { left, right }
            }),
    {
        proof {
            use_type_invariant(&*self);
        }
        let action = if !is_finite(left) || !is_finite(right) {
            LocalSearchAction::Finished(
                Ok(
                    LocalSearchResult {
                        best_value: self.value,
                        best_score: self.score,
                        iterations: self.iterations,
                    },
                ),
            )
        } else {
            LocalSearchAction::EvaluateNeighbors { left, right }
        };
        let ghost old_neighbors = self.neighbors@;
        let ghost neighbors = old_neighbors.push((self.value, left, right));
        let ghost evaluations = self.evaluations@;
        proof {
            assert(self.run_laws());
            assert(evaluations.len() == 2 * self.iterations - 1);
            assert(old_neighbors.len() == self.iterations - 1);
            assert forall|k: int|
                0 <= k < neighbors.len() && 2 * k + 2 < evaluations.len() implies evaluations[2 * k
                + 1].0 == (#[trigger] neighbors[k]).1 && evaluations[2 * k + 2].0 == neighbors[k].2 by {
                assert(k < old_neighbors.len());
                assert(neighbors[k] == old_neighbors[k]);
                assert(old_neighbors[k] == self.spec_neighbors()[k]);
            }
        }
        *self = LocalSearch {
            config: self.config,
            value: self.value,
            score: self.score,
            iterations: self.iterations,
            action,
            evaluations: Ghost(evaluations),
            neighbors: Ghost(neighbors),
            settled: Ghost(false),
        };
    }

    /// Takes the scores of the two neighbours. A non-finite score ends the
    /// search with `NonFiniteScore`. Else the preferred point is taken; when
    /// it equals the current value numerically the search ends there, and
    /// otherwise the search moves to it and the next iteration begins.
    pub fn record_neighbor_scores(&mut self, left_score: u64, right_score: u64)
        requires
            old(self).spec_action() is EvaluateNeighbors,
        ensures
            final(self).spec_config() == old(self).spec_config(),
            final(self).steps_left() < old(self).steps_left(),
            final(self).spec_iterations() <= final(self).spec_config().max_iterations,
            final(self).spec_evaluations() == old(self).spec_evaluations().push(
                (old(self).spec_action()->left, left_score),
            ).push((old(self).spec_action()->right, right_score)),
            final(self).spec_neighbors() == old(self).spec_neighbors(),
            final(self).run_laws(),
            ({
                let config = old(self).spec_config();
                let value = old(self).spec_value();
                let score = old(self).spec_score();
                let iterations = old(self).spec_iterations();
                let left = old(self).spec_action()->left;
                let right = old(self).spec_action()->right;
                let (next_value, next_score) = preferred_move(
                    value,
                    score,
                    left,
                    left_score,
                    right,
                    right_score,
                    config.direction,
                );
                if !finite(left_score) || !finite(right_score) {
                    final(self).spec_action() == LocalSearchAction::Finished(
                        Err(LocalSearchError::NonFiniteScore),
                    )
                } else if float_eq(next_value, value) {
                    final(self).spec_action() == finished_at(value, score, iterations)
                } else {
                    &&& final(self).spec_value() == next_value
                    &&& final(self).spec_score() == next_score
                    &&& final(self).spec_iterations() == next_iteration_count(config, iterations)
                    &&& final(self).spec_action() == next_iteration_action(
                        config,
                        next_value,
                        next_score,
                        iterations,
                    )
                }
            }),
            // A move is always to a strictly better score.
            final(self).spec_value() != old(self).spec_value() ==> spec_is_better(
                final(self).spec_score(),
                old(self).spec_score(),
                old(self).spec_config().direction,
            ),
            // A move is to a best of the two neighbours: neither scores
            // strictly better than the point moved to.
            final(self).spec_value() != old(self).spec_value() ==> {
                &&& !spec_is_better(
                    left_score,
                    final(self).spec_score(),
                    old(self).spec_config().direction,
                )
                &&& !spec_is_better(
                    right_score,
                    final(self).spec_score(),
                    old(self).spec_config().direction,
                )
            },
    {
        proof {
            use_type_invariant(&*self);
        }
        let config = self.config;
        let (left, right) = match self.action {
            LocalSearchAction::EvaluateNeighbors { left, right } => (left, right),
            _ => (self.value, self.value),
        };
        let ghost old_evaluations = self.evaluations@;
        let ghost evaluations = old_evaluations.push((left, left_score)).push(
            (right, right_score),
        );
        let ghost neighbors = self.neighbors@;
        proof {
            let n = old_evaluations.len() as int;
            assert(evaluations[n] == (left, left_score));
            assert(evaluations[n + 1] == (right, right_score));
            assert(evaluations[0] == old_evaluations[0]);
            assert(self.run_laws());
            assert(n == 2 * self.iterations - 1);
            assert(neighbors.len() == self.iterations);
            assert forall|k: int|
                0 <= k < neighbors.len() && 2 * k + 2 < evaluations.len() implies evaluations[2 * k
                + 1].0 == (#[trigger] neighbors[k]).1 && evaluations[2 * k + 2].0 == neighbors[k].2 by {
                assert(neighbors[k] == self.spec_neighbors()[k]);
                if 2 * k + 2 < n {
                    assert(evaluations[2 * k + 1] == old_evaluations[2 * k + 1]);
                    assert(evaluations[2 * k + 2] == old_evaluations[2 * k + 2]);
                }
            }
            assert(old_evaluations.contains((self.value, self.score)));
            let j = choose|j: int|
                0 <= j < old_evaluations.len() && old_evaluations[j] == (self.value, self.score);
            assert(evaluations[j] == (self.value, self.score));
            assert(evaluations.contains((self.value, self.score)));
            assert(evaluations.contains((left, left_score)));
            assert(evaluations.contains((right, right_score)));
        }
        if !is_finite(left_score) || !is_finite(right_score) {
            proof {
                let n = old_evaluations.len() as int;
                if !finite(left_score) {
                    assert(!finite(evaluations[n].1));
                } else {
                    assert(!finite(evaluations[n + 1].1));
                }
            }
            *self = LocalSearch {
                config,
                value: self.value,
                score: self.score,
                iterations: self.iterations,
                action: LocalSearchAction::Finished(Err(LocalSearchError::NonFiniteScore)),
                evaluations: Ghost(evaluations),
                neighbors: Ghost(neighbors),
                settled: Ghost(false),
            };
            return;
        }
        proof {
            lemma_preferred_move_is_best(
                self.value,
                self.score,
                left,
                left_score,
                right,
                right_score,
                config.direction,
            );
        }
        let mut next_value = self.value;
        let mut next_score = self.score;
        if is_better(left_score, next_score, config.direction) {
            next_value = left;
            next_score = left_score;
        }
        if is_better(right_score, next_score, config.direction) {
            next_value = right;
            next_score = right_score;
        }
        if equals(next_value, self.value) {
            *self = LocalSearch {
                config,
                value: self.value,
                score: self.score,
                iterations: self.iterations,
                action: LocalSearchAction::Finished(
                    Ok(
                        LocalSearchResult {
                            best_value: self.value,
                            best_score: self.score,
                            iterations: self.iterations,
                        },
                    ),
                ),
                evaluations: Ghost(evaluations),
                neighbors: Ghost(neighbors),
                settled: Ghost(true),
            };
            return;
        }
        if self.iterations < config.max_iterations {
            *self = LocalSearch {
                config,
                value: next_value,
                score: next_score,
                iterations: self.iterations + 1,
                action: LocalSearchAction::ComputeNeighbors {
                    value: next_value,
                    step: config.step_size,
                },
                evaluations: Ghost(evaluations),
                neighbors: Ghost(neighbors),
                settled: Ghost(false),
            };
        } else {
            *self = LocalSearch {
                config,
                value: next_value,
                score: next_score,
                iterations: self.iterations,
                action: LocalSearchAction::Finished(
                    Ok(
                        LocalSearchResult {
                            best_value: next_value,
                            best_score: next_score,
                            iterations: self.iterations,
                        },
                    ),
                ),
                evaluations: Ghost(evaluations),
                neighbors: Ghost(neighbors),
                settled: Ghost(false),
            };
        }
    }
}

/// A search that stopped without moving stopped at a local optimum: when the
/// objective gave each neighbour numerically equal to the stopping point the
/// stopping point's own score (as a deterministic objective does), neither
/// neighbour scored better than the stopping point.
pub proof fn lemma_settled_is_local_optimum(
    value: u64,
    score: u64,
    left: u64,
    left_score: u64,
    right: u64,
    right_score: u64,
    direction: ObjectiveDirection,
)
    requires
        float_eq(
            preferred_move(value, score, left, left_score, right, right_score, direction).0,
            value,
        ),
        float_eq(left, value) ==> left_score == score,
        float_eq(right, value) ==> right_score == score,
    ensures
        !spec_is_better(left_score, score, direction),
        !spec_is_better(right_score, score, direction),
{
}

} // verus!
