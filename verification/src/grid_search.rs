//! One- and two-dimensional grid search, as state machines.
//!
//! A grid search scores every candidate in order and keeps the first one
//! with the best score. Scoring is done outside: a driver asks the search
//! for its [`action`](GridSearch1D::action), evaluates the objective at the
//! candidate named there, and reports the score with `record_score`, until
//! the action is `Finished`. Non-finite candidates end the search before any
//! scoring; a non-finite score ends it at once.

use vstd::prelude::*;
use crate::binary64::{
    all_finite,
    finite,
    float_eq,
    float_le,
    all_finite_values,
    is_finite,
    equals,
};
use crate::objective::{
    ObjectiveDirection,
    first_best,
    first_best_in,
    is_better,
    lemma_first_best_extend,
    spec_is_better,
};

verus! {

/// The best candidate of a one-dimensional grid and its score.
#[derive(Debug, Clone, Copy)]
pub struct GridSearchResult1D {
    pub best_value: u64,
    pub best_score: u64,
}

/// The best candidate of a two-dimensional grid and its score.
#[derive(Debug, Clone, Copy)]
pub struct GridSearchResult2D {
    pub best_x: u64,
    pub best_y: u64,
    pub best_score: u64,
}

/// Two results are equal when their candidates and scores are numerically
/// equal.
impl PartialEq for GridSearchResult1D {
    fn eq(&self, other: &Self) -> (r: bool) {
        equals(self.best_value, other.best_value) && equals(self.best_score, other.best_score)
    }
}

impl vstd::std_specs::cmp::PartialEqSpecImpl for GridSearchResult1D {
    open spec fn obeys_eq_spec() -> bool {
        true
    }

    open spec fn eq_spec(&self, other: &Self) -> bool {
        float_eq(self.best_value, other.best_value) && float_eq(self.best_score, other.best_score)
    }
}

/// Two results are equal when their points and scores are numerically equal.
impl PartialEq for GridSearchResult2D {
    fn eq(&self, other: &Self) -> (r: bool) {
        equals(self.best_x, other.best_x) && equals(self.best_y, other.best_y) && equals(
            self.best_score,
            other.best_score,
        )
    }
}

impl vstd::std_specs::cmp::PartialEqSpecImpl for GridSearchResult2D {
    open spec fn obeys_eq_spec() -> bool {
        true
    }

    open spec fn eq_spec(&self, other: &Self) -> bool {
        &&& float_eq(self.best_x, other.best_x)
        &&& float_eq(self.best_y, other.best_y)
        &&& float_eq(self.best_score, other.best_score)
    }
}

/// What the driver of a one-dimensional search must do next.
#[derive(Debug, Clone, Copy, PartialEq)]
pub enum GridSearchAction1D {
    /// Evaluate the objective at this candidate; report with `record_score`.
    Evaluate(u64),
    /// The search is over; `None` when it failed.
    Finished(Option<GridSearchResult1D>),
}

/// What the driver of a two-dimensional search must do next.
#[derive(Debug, Clone, Copy, PartialEq)]
pub enum GridSearchAction2D {
    /// Evaluate the objective at `(x, y)`; report with `record_score`.
    Evaluate { x: u64, y: u64 },
    /// The search is over; `None` when it failed.
    Finished(Option<GridSearchResult2D>),
}

/// The `k`-th candidate of a two-dimensional grid, which runs through `ys`
/// for each element of `xs` in turn: its `x`.
pub open spec fn grid_x(xs: Seq<u64>, ys: Seq<u64>, k: int) -> u64 {
    xs[k / ys.len() as int]
}

/// The `y` of the `k`-th candidate of a two-dimensional grid.
pub open spec fn grid_y(xs: Seq<u64>, ys: Seq<u64>, k: int) -> u64 {
    ys[k % ys.len() as int]
}

/// The score of the point `(xs[i], ys[j])` among scores listed in grid
/// order, for a grid whose `ys` has `ny` elements.
pub open spec fn grid_score(scores: Seq<u64>, ny: int, i: int, j: int) -> u64 {
    scores[i * ny + j]
}

/// The point `(xs[i], ys[j])` is the `(i * ny + j)`-th of the grid.
pub proof fn lemma_grid_position(nx: int, ny: int, i: int, j: int)
    requires
        0 <= i < nx,
        0 <= j < ny,
    ensures
        0 <= i * ny + j < nx * ny,
        (i * ny + j) / ny == i,
        (i * ny + j) % ny == j,
{
    vstd::arithmetic::div_mod::lemma_fundamental_div_mod_converse(i * ny + j, ny, i, j);
    assert(0 <= i * ny + j < nx * ny) by (nonlinear_arith)
        requires
            0 <= i < nx,
            0 <= j < ny,
    ;
}

/// The `k`-th point of the grid is `(xs[k / ny], ys[k % ny])`, both in range.
pub proof fn lemma_grid_index(nx: int, ny: int, k: int)
    requires
        0 <= nx,
        0 <= ny,
        0 <= k < nx * ny,
    ensures
        0 <= k / ny < nx,
        0 <= k % ny < ny,
        k == (k / ny) * ny + k % ny,
{
    assert(ny > 0) by (nonlinear_arith)
        requires
            0 <= nx,
            0 <= ny,
            0 <= k < nx * ny,
    ;
    vstd::arithmetic::div_mod::lemma_fundamental_div_mod(k, ny);
    vstd::arithmetic::div_mod::lemma_mod_pos_bound(k, ny);
    vstd::arithmetic::div_mod::lemma_div_pos_is_pos(k, ny);
    let q = k / ny;
    let r = k % ny;
    assert(k == q * ny + r) by (nonlinear_arith)
        requires
            k == ny * q + r,
    ;
    assert(q < nx) by (nonlinear_arith)
        requires
            k == q * ny + r,
            0 <= r,
            k < nx * ny,
            ny > 0,
    ;
}

/// `best` is, by coordinates, the best point of the grid `xs` by `ys`:
/// `scores` holds a finite score the objective may return for each point,
/// and `best` is a point `(xs[i], ys[j])` with its score, which no point's
/// score beats.
pub open spec fn best_grid_point<F: Fn(u64, u64) -> u64>(
    objective: F,
    xs: Seq<u64>,
    ys: Seq<u64>,
    scores: Seq<u64>,
    best: GridSearchResult2D,
    direction: ObjectiveDirection,
) -> bool {
    let ny = ys.len() as int;
    &&& scores.len() == xs.len() * ys.len()
    &&& forall|k: int, l: int|
        0 <= k < xs.len() && 0 <= l < ys.len() ==> objective.ensures(
            (xs[k], ys[l]),
            #[trigger] grid_score(scores, ny, k, l),
        ) && finite(grid_score(scores, ny, k, l))
    &&& exists|i: int, j: int|
        #![trigger xs[i], ys[j]]
        0 <= i < xs.len() && 0 <= j < ys.len() && best.best_x == xs[i] && best.best_y == ys[j]
            && best.best_score == grid_score(scores, ny, i, j) && forall|k: int, l: int|
            0 <= k < xs.len() && 0 <= l < ys.len() ==> !spec_is_better(
                #[trigger] grid_score(scores, ny, k, l),
                best.best_score,
                direction,
            )
}

/// The best point of a grid, found by position in grid order, is the best
/// point by coordinates.
proof fn lemma_best_grid_point<F: Fn(u64, u64) -> u64>(
    objective: F,
    xs: Seq<u64>,
    ys: Seq<u64>,
    scores: Seq<u64>,
    best: GridSearchResult2D,
    direction: ObjectiveDirection,
)
    requires
        grid_scored_by(objective, xs, ys, scores),
        scores.len() == xs.len() * ys.len(),
        all_finite(scores),
        exists|i: int|
            first_best(scores, i, direction) && best.best_x == grid_x(xs, ys, i) && best.best_y
                == grid_y(xs, ys, i) && best.best_score == scores[i],
    ensures
        best_grid_point(objective, xs, ys, scores, best, direction),
{
    let nx = xs.len() as int;
    let ny = ys.len() as int;
    let i0 = choose|i: int|
        first_best(scores, i, direction) && best.best_x == grid_x(xs, ys, i) && best.best_y
            == grid_y(xs, ys, i) && best.best_score == scores[i];
    lemma_grid_index(nx, ny, i0);
    let i = i0 / ny;
    let j = i0 % ny;
    assert(grid_score(scores, ny, i, j) == scores[i0]);
    assert forall|k: int, l: int| 0 <= k < nx && 0 <= l < ny implies objective.ensures(
        (xs[k], ys[l]),
        #[trigger] grid_score(scores, ny, k, l),
    ) && finite(grid_score(scores, ny, k, l)) by {
        lemma_grid_position(nx, ny, k, l);
        let idx = k * ny + l;
        assert(objective.ensures((grid_x(xs, ys, idx), grid_y(xs, ys, idx)), scores[idx]));
        assert(finite(scores[idx]));
    }
    assert forall|k: int, l: int| 0 <= k < nx && 0 <= l < ny implies !spec_is_better(
        #[trigger] grid_score(scores, ny, k, l),
        best.best_score,
        direction,
    ) by {
        lemma_grid_position(nx, ny, k, l);
        let idx = k * ny + l;
        assert(!spec_is_better(scores[idx], scores[i0], direction));
    }
    assert(best.best_x == xs[i] && best.best_y == ys[j]);
}

/// A one-dimensional grid search in progress.
pub struct GridSearch1D {
    values: Vec<u64>,
    direction: ObjectiveDirection,
    next: usize,
    scores: Ghost<Seq<u64>>,
    best: Option<GridSearchResult1D>,
    best_index: Ghost<int>,
    action: GridSearchAction1D,
}

impl GridSearch1D {
    #[verifier::type_invariant]
    spec fn well_formed(self) -> bool {
        &&& self.scores@.len() <= self.values@.len()
        &&& match self.action {
            GridSearchAction1D::Evaluate(v) => {
                &&& all_finite(self.values@)
                &&& self.next == self.scores@.len()
                &&& self.next < self.values@.len()
                &&& v == self.values@[self.next as int]
                &&& all_finite(self.scores@)
                &&& self.next == 0 ==> self.best is None
                &&& self.next > 0 ==> {
                    &&& first_best_in(self.scores@, self.next as int, self.best_index@, self.direction)
                    &&& self.best == Some(
                        GridSearchResult1D {
                            best_value: self.values@[self.best_index@],
                            best_score: self.scores@[self.best_index@],
                        },
                    )
                }
            },
            GridSearchAction1D::Finished(_) => true,
        }
    }

    /// The candidates.
    pub closed spec fn spec_values(self) -> Seq<u64> {
        self.values@
    }

    /// The direction in which scores improve.
    pub closed spec fn spec_direction(self) -> ObjectiveDirection {
        self.direction
    }

    /// The scores reported so far, in order.
    pub closed spec fn spec_scores(self) -> Seq<u64> {
        self.scores@
    }

    /// What the driver must do next.
    pub closed spec fn spec_action(self) -> GridSearchAction1D {
        self.action
    }

    /// The number of scores still to come; zero exactly when the search is
    /// over.
    pub open spec fn steps_left(self) -> nat {
        match self.spec_action() {
            GridSearchAction1D::Evaluate(_) => (self.spec_values().len() - self.spec_scores().len()) as nat,
            GridSearchAction1D::Finished(_) => 0,
        }
    }

    /// Starts a search over `values`: it fails at once when `values` is empty
    /// or holds a non-finite value, and otherwise asks for the score of the
    /// first candidate.
    pub fn start(values: &[u64], direction: ObjectiveDirection) -> (s: Self)
        ensures
            s.spec_values() == values@,
            s.spec_direction() == direction,
            s.spec_scores() == Seq::<u64>::empty(),
            s.spec_action() == (if values@.len() == 0 || !all_finite(values@) {
                GridSearchAction1D::Finished(None)
            } else {
                GridSearchAction1D::Evaluate(values@[0])
            }),
    {
        let owned = vstd::slice::slice_to_vec(values);
        let action = if values.len() == 0 || !all_finite_values(values) {
            GridSearchAction1D::Finished(None)
        } else {
            GridSearchAction1D::Evaluate(values[0])
        };
        GridSearch1D {
            values: owned,
            direction,
            next: 0,
            scores: Ghost(Seq::empty()),
            best: None,
            best_index: Ghost(0),
            action,
        }
    }

    /// What the driver must do next.
    pub fn action(&self) -> (r: GridSearchAction1D)
        ensures
            r == self.spec_action(),
    {
        self.action
    }

    /// Takes the score of the candidate last asked for. A non-finite score
    /// fails the search. Otherwise the next candidate is asked for, or, when
    /// all are scored, the search ends with the first candidate whose score
    /// no other beats.
    pub fn record_score(&mut self, score: u64)
        requires
            old(self).spec_action() is Evaluate,
        ensures
            final(self).spec_values() == old(self).spec_values(),
            final(self).spec_direction() == old(self).spec_direction(),
            final(self).spec_scores() == old(self).spec_scores().push(score),
            final(self).steps_left() < old(self).steps_left(),
            !finite(score) ==> final(self).spec_action() == GridSearchAction1D::Finished(None),
            finite(score) ==> all_finite(final(self).spec_scores()),
            finite(score) && final(self).spec_scores().len() < final(self).spec_values().len()
                ==> final(self).spec_action() == GridSearchAction1D::Evaluate(
                final(self).spec_values()[final(self).spec_scores().len() as int],
            ),
            finite(score) && final(self).spec_scores().len() == final(self).spec_values().len()
                ==> (final(self).spec_action() matches GridSearchAction1D::Finished(Some(r))
                && exists|i: int|
                first_best(final(self).spec_scores(), i, final(self).spec_direction())
                    && r.best_value == final(self).spec_values()[i] && r.best_score
                    == final(self).spec_scores()[i]),
    {
        proof {
            use_type_invariant(&*self);
        }
        let n = self.values.len();
        let k = self.next;
        let value = self.values[k];
        let ghost old_scores = self.scores@;
        let ghost new_scores = old_scores.push(score);
        self.action = GridSearchAction1D::Finished(None);
        self.scores = Ghost(new_scores);
        if !is_finite(score) {
            return;
        }
        assert(all_finite(new_scores)) by {
            assert forall|j: int| 0 <= j < new_scores.len() implies finite(#[trigger] new_scores[j]) by {
                if j < k {
                    assert(new_scores[j] == old_scores[j]);
                }
            }
        }
        let improves = match self.best {
            None => true,
            Some(b) => is_better(score, b.best_score, self.direction),
        };
        proof {
            if k > 0 {
                assert(first_best_in(new_scores, k as int, self.best_index@, self.direction)) by {
                    assert forall|j: int| 0 <= j < k implies new_scores[j] == old_scores[j] by {}
                }
                lemma_first_best_extend(new_scores, k as int, self.best_index@, self.direction);
            }
        }
        if improves {
            self.best = Some(GridSearchResult1D { best_value: value, best_score: score });
            self.best_index = Ghost(k as int);
        }
        self.next = k + 1;
        if k + 1 < n {
            self.action = GridSearchAction1D::Evaluate(self.values[k + 1]);
        } else {
            self.action = GridSearchAction1D::Finished(self.best);
        }
    }
}

/// A two-dimensional grid search in progress.
pub struct GridSearch2D {
    xs: Vec<u64>,
    ys: Vec<u64>,
    direction: ObjectiveDirection,
    next_x: usize,
    next_y: usize,
    scores: Ghost<Seq<u64>>,
    best: Option<GridSearchResult2D>,
    best_index: Ghost<int>,
    action: GridSearchAction2D,
}

impl GridSearch2D {
    #[verifier::type_invariant]
    spec fn well_formed(self) -> bool {
        &&& self.scores@.len() <= self.xs@.len() * self.ys@.len()
        &&& match self.action {
            GridSearchAction2D::Evaluate { x, y } => {
                &&& all_finite(self.xs@)
                &&& all_finite(self.ys@)
                &&& self.next_x < self.xs@.len()
                &&& self.next_y < self.ys@.len()
                &&& self.scores@.len() == self.next_x * self.ys@.len() + self.next_y
                &&& x == self.xs@[self.next_x as int]
                &&& y == self.ys@[self.next_y as int]
                &&& all_finite(self.scores@)
                &&& self.scores@.len() == 0 ==> self.best is None
                &&& self.scores@.len() > 0 ==> {
                    &&& first_best_in(self.scores@, self.scores@.len() as int, self.best_index@, self.direction)
                    &&& self.best == Some(
                        GridSearchResult2D {
                            best_x: grid_x(self.xs@, self.ys@, self.best_index@),
                            best_y: grid_y(self.xs@, self.ys@, self.best_index@),
                            best_score: self.scores@[self.best_index@],
                        },
                    )
                }
            },
            GridSearchAction2D::Finished(_) => true,
        }
    }

    /// The `x` candidates.
    pub closed spec fn spec_xs(self) -> Seq<u64> {
        self.xs@
    }

    /// The `y` candidates.
    pub closed spec fn spec_ys(self) -> Seq<u64> {
        self.ys@
    }

    /// The direction in which scores improve.
    pub closed spec fn spec_direction(self) -> ObjectiveDirection {
        self.direction
    }

    /// The scores reported so far, in grid order.
    pub closed spec fn spec_scores(self) -> Seq<u64> {
        self.scores@
    }

    /// What the driver must do next.
    pub closed spec fn spec_action(self) -> GridSearchAction2D {
        self.action
    }

    /// The number of grid points.
    pub open spec fn grid_len(self) -> int {
        (self.spec_xs().len() * self.spec_ys().len()) as int
    }

    /// The number of scores still to come; zero exactly when the search is
    /// over.
    pub open spec fn steps_left(self) -> nat {
        match self.spec_action() {
            GridSearchAction2D::Evaluate { .. } => (self.grid_len() - self.spec_scores().len()) as nat,
            GridSearchAction2D::Finished(_) => 0,
        }
    }

    /// Starts a search over the grid `xs` by `ys`: it fails at once when
    /// either is empty or holds a non-finite value, and otherwise asks for
    /// the score of `(xs[0], ys[0])`.
    pub fn start(xs: &[u64], ys: &[u64], direction: ObjectiveDirection) -> (s: Self)
        ensures
            s.spec_xs() == xs@,
            s.spec_ys() == ys@,
            s.spec_direction() == direction,
            s.spec_scores() == Seq::<u64>::empty(),
            s.spec_action() == (if xs@.len() == 0 || ys@.len() == 0 || !all_finite(xs@)
                || !all_finite(ys@) {
                GridSearchAction2D::Finished(None)
            } else {
                GridSearchAction2D::Evaluate { x: xs@[0], y: ys@[0] }
            }),
    {
        let owned_xs = vstd::slice::slice_to_vec(xs);
        let owned_ys = vstd::slice::slice_to_vec(ys);
        let action = if xs.len() == 0 || ys.len() == 0 || !all_finite_values(xs)
            || !all_finite_values(ys) {
            GridSearchAction2D::Finished(None)
        } else {
            GridSearchAction2D::Evaluate { x: xs[0], y: ys[0] }
        };
        proof {
            assert(0 <= xs@.len() * ys@.len()) by (nonlinear_arith);
        }
        GridSearch2D {
            xs: owned_xs,
            ys: owned_ys,
            direction,
            next_x: 0,
            next_y: 0,
            scores: Ghost(Seq::empty()),
            best: None,
            best_index: Ghost(0),
            action,
        }
    }

    /// What the driver must do next.
    pub fn action(&self) -> (r: GridSearchAction2D)
        ensures
            r == self.spec_action(),
    {
        self.action
    }

    /// Takes the score of the grid point last asked for. A non-finite score
    /// fails the search. Otherwise the next point is asked for, or, when all
    /// are scored, the search ends with the first point whose score no other
    /// beats.
    pub fn record_score(&mut self, score: u64)
        requires
            old(self).spec_action() is Evaluate,
        ensures
            final(self).spec_xs() == old(self).spec_xs(),
            final(self).spec_ys() == old(self).spec_ys(),
            final(self).spec_direction() == old(self).spec_direction(),
            final(self).spec_scores() == old(self).spec_scores().push(score),
            final(self).steps_left() < old(self).steps_left(),
            !finite(score) ==> final(self).spec_action() == GridSearchAction2D::Finished(None),
            finite(score) ==> all_finite(final(self).spec_scores()),
            finite(score) && final(self).spec_scores().len() < final(self).grid_len()
                ==> final(self).spec_action() == (GridSearchAction2D::Evaluate {
                x: grid_x(
                    final(self).spec_xs(),
                    final(self).spec_ys(),
                    final(self).spec_scores().len() as int,
                ),
                y: grid_y(
                    final(self).spec_xs(),
                    final(self).spec_ys(),
                    final(self).spec_scores().len() as int,
                ),
            }),
            finite(score) && final(self).spec_scores().len() == final(self).grid_len()
                ==> (final(self).spec_action() matches GridSearchAction2D::Finished(Some(r))
                && exists|i: int|
                first_best(final(self).spec_scores(), i, final(self).spec_direction()) && r.best_x
                    == grid_x(final(self).spec_xs(), final(self).spec_ys(), i) && r.best_y == grid_y(
                    final(self).spec_xs(),
                    final(self).spec_ys(),
                    i,
                ) && r.best_score == final(self).spec_scores()[i]),
    {
        proof {
            use_type_invariant(&*self);
        }
        let ghost nx = self.xs@.len() as int;
        let ghost ny = self.ys@.len() as int;
        let nx_exec = self.xs.len();
        let ny_exec = self.ys.len();
        let xi = self.next_x;
        let yi = self.next_y;
        let x = self.xs[xi];
        let y = self.ys[yi];
        let ghost k = self.scores@.len() as int;
        let ghost old_scores = self.scores@;
        let ghost new_scores = old_scores.push(score);
        proof {
            assert(k == xi * ny + yi);
            vstd::arithmetic::div_mod::lemma_fundamental_div_mod_converse(k, ny, xi as int, yi as int);
            assert(k + 1 <= nx * ny) by (nonlinear_arith)
                requires
                    k == xi * ny + yi,
                    0 <= xi < nx,
                    0 <= yi < ny,
            ;
        }
        self.action = GridSearchAction2D::Finished(None);
        self.scores = Ghost(new_scores);
        if !is_finite(score) {
            return;
        }
        assert(all_finite(new_scores)) by {
            assert forall|j: int| 0 <= j < new_scores.len() implies finite(#[trigger] new_scores[j]) by {
                if j < k {
                    assert(new_scores[j] == old_scores[j]);
                }
            }
        }
        let improves = match self.best {
            None => true,
            Some(b) => is_better(score, b.best_score, self.direction),
        };
        proof {
            if k > 0 {
                assert(first_best_in(new_scores, k, self.best_index@, self.direction)) by {
                    assert forall|j: int| 0 <= j < k implies new_scores[j] == old_scores[j] by {}
                }
                lemma_first_best_extend(new_scores, k, self.best_index@, self.direction);
            }
        }
        if improves {
            self.best = Some(GridSearchResult2D { best_x: x, best_y: y, best_score: score });
            self.best_index = Ghost(k);
        }
        if yi + 1 < ny_exec {
            self.next_y = yi + 1;
            proof {
                vstd::arithmetic::div_mod::lemma_fundamental_div_mod_converse(
                    k + 1,
                    ny,
                    xi as int,
                    yi + 1,
                );
                assert(k + 1 < nx * ny) by (nonlinear_arith)
                    requires
                        k == xi * ny + yi,
                        yi + 1 < ny,
                        0 <= xi < nx,
                ;
            }
            self.action = GridSearchAction2D::Evaluate { x, y: self.ys[yi + 1] };
        } else if xi + 1 < nx_exec {
            self.next_x = xi + 1;
            self.next_y = 0;
            proof {
                assert(k + 1 == (xi + 1) * ny + 0) by (nonlinear_arith)
                    requires
                        k == xi * ny + yi,
                        yi + 1 == ny,
                ;
                vstd::arithmetic::div_mod::lemma_fundamental_div_mod_converse(
                    k + 1,
                    ny,
                    xi + 1,
                    0,
                );
                assert(k + 1 < nx * ny) by (nonlinear_arith)
                    requires
                        k + 1 == (xi + 1) * ny,
                        xi + 1 < nx,
                        0 < ny,
                ;
            }
            self.action = GridSearchAction2D::Evaluate { x: self.xs[xi + 1], y: self.ys[0] };
        } else {
            proof {
                assert(k + 1 == nx * ny) by (nonlinear_arith)
                    requires
                        k == xi * ny + yi,
                        yi + 1 == ny,
                        xi + 1 == nx,
                ;
                let bi = self.best_index@;
                assert(first_best(new_scores, bi, self.direction));
                assert(self.best == Some(
                    GridSearchResult2D {
                        best_x: grid_x(self.xs@, self.ys@, bi),
                        best_y: grid_y(self.xs@, self.ys@, bi),
                        best_score: new_scores[bi],
                    },
                ));
            }
            self.action = GridSearchAction2D::Finished(self.best);
        }
    }
}

/// Every score in `scores` is one the objective may return for the candidate
/// at the same position of `values`.
pub open spec fn scored_by<F: Fn(u64) -> u64>(objective: F, values: Seq<u64>, scores: Seq<u64>) -> bool {
    &&& scores.len() <= values.len()
    &&& forall|i: int| 0 <= i < scores.len() ==> objective.ensures((values[i],), #[trigger] scores[i])
}

/// Every score in `scores` is one the objective may return for the grid
/// point at the same position.
pub open spec fn grid_scored_by<F: Fn(u64, u64) -> u64>(
    objective: F,
    xs: Seq<u64>,
    ys: Seq<u64>,
    scores: Seq<u64>,
) -> bool {
    &&& scores.len() <= xs.len() * ys.len()
    &&& forall|i: int|
        0 <= i < scores.len() ==> objective.ensures((grid_x(xs, ys, i), grid_y(xs, ys, i)), #[trigger] scores[i])
}

/// Scores every candidate of `values` with `objective`, in order, and
/// returns the first candidate whose score no other beats, with its score.
///
/// `None` when `values` is empty or holds a non-finite value (the objective
/// is then never called), or when a score is not finite (the objective is
/// not called again after it).
pub fn grid_search_1d<F: Fn(u64) -> u64>(
    values: &[u64],
    objective: F,
    direction: ObjectiveDirection,
) -> (r: Option<GridSearchResult1D>)
    requires
        forall|v: u64| #[trigger] objective.requires((v,)),
    ensures
        (values@.len() == 0 || !all_finite(values@)) ==> r is None,
        r matches Some(best) ==> exists|scores: Seq<u64>|
            {
                &&& #[trigger] scored_by(objective, values@, scores)
                &&& scores.len() == values@.len()
                &&& all_finite(scores)
                &&& exists|i: int|
                    first_best(scores, i, direction) && best.best_value == values@[i]
                        && best.best_score == scores[i]
            },
        r matches Some(best) ==> exists|scores: Seq<u64>|
            {
                &&& #[trigger] scored_by(objective, values@, scores)
                &&& scores.len() == values@.len()
                &&& all_finite(scores)
                &&& exists|i: int|
                    {
                        &&& 0 <= i < scores.len()
                        &&& best.best_value == values@[i]
                        &&& best.best_score == #[trigger] scores[i]
                        &&& forall|j: int|
                            0 <= j < scores.len() ==> (direction == ObjectiveDirection::Minimize
                                ==> float_le(scores[i], #[trigger] scores[j])) && (direction
                                == ObjectiveDirection::Maximize ==> float_le(scores[j], scores[i]))
                        &&& forall|j: int| 0 <= j < i ==> !float_eq(#[trigger] scores[j], scores[i])
                    }
            },
        (r is None && values@.len() > 0 && all_finite(values@)) ==> exists|scores: Seq<u64>|
            {
                &&& #[trigger] scored_by(objective, values@, scores)
                &&& scores.len() > 0
                &&& all_finite(scores.drop_last())
                &&& !finite(scores.last())
            },
{
    let mut search = GridSearch1D::start(values, direction);
    loop
        invariant
            forall|v: u64| #[trigger] objective.requires((v,)),
            search.spec_values() == values@,
            search.spec_direction() == direction,
            scored_by(objective, values@, search.spec_scores()),
            (values@.len() == 0 || !all_finite(values@)) ==> search.spec_action()
                == GridSearchAction1D::Finished(None),
            search.spec_action() is Evaluate ==> {
                &&& values@.len() > 0
                &&& all_finite(values@)
                &&& all_finite(search.spec_scores())
                &&& search.spec_scores().len() < values@.len()
                &&& search.spec_action()->Evaluate_0 == values@[search.spec_scores().len() as int]
            },
            search.spec_action() matches GridSearchAction1D::Finished(Some(best)) ==> {
                &&& search.spec_scores().len() == values@.len()
                &&& all_finite(search.spec_scores())
                &&& exists|i: int|
                    first_best(search.spec_scores(), i, direction) && best.best_value == values@[i]
                        && best.best_score == search.spec_scores()[i]
            },
            search.spec_action() == GridSearchAction1D::Finished(None) ==> {
                ||| values@.len() == 0
                ||| !all_finite(values@)
                ||| {
                    &&& search.spec_scores().len() > 0
                    &&& all_finite(search.spec_scores().drop_last())
                    &&& !finite(search.spec_scores().last())
                }
            },
        decreases search.steps_left(),
    {
        match search.action() {
            GridSearchAction1D::Evaluate(value) => {
                let ghost before = search.spec_scores();
                let score = objective(value);
                search.record_score(score);
                proof {
                    let after = search.spec_scores();
                    assert(after.drop_last() =~= before);
                    assert forall|i: int| 0 <= i < after.len() implies objective.ensures(
                        (values@[i],),
                        #[trigger] after[i],
                    ) by {
                        if i < before.len() {
                            assert(after[i] == before[i]);
                        }
                    }
                }
            },
            GridSearchAction1D::Finished(result) => {
                proof {
                    if let Some(best) = result {
                        let scores = search.spec_scores();
                        let i = choose|i: int|
                            first_best(scores, i, direction) && best.best_value == values@[i]
                                && best.best_score == scores[i];
                        crate::objective::lemma_first_best_is_numeric_first_extreme(
                            scores,
                            i,
                            direction,
                        );
                        assert(scored_by(objective, values@, scores));
                    }
                }
                return result;
            },
        }
    }
}

/// Scores every point of the grid `x_values` by `y_values` with
/// `objective`, running through `y_values` for each `x` in turn, and returns
/// the first point whose score no other beats, with its score.
///
/// `None` when either side is empty or holds a non-finite value (the
/// objective is then never called), or when a score is not finite (the
/// objective is not called again after it).
pub fn grid_search_2d<F: Fn(u64, u64) -> u64>(
    x_values: &[u64],
    y_values: &[u64],
    objective: F,
    direction: ObjectiveDirection,
) -> (r: Option<GridSearchResult2D>)
    requires
        forall|x: u64, y: u64| #[trigger] objective.requires((x, y)),
    ensures
        (x_values@.len() == 0 || y_values@.len() == 0 || !all_finite(x_values@) || !all_finite(
            y_values@,
        )) ==> r is None,
        r matches Some(best) ==> exists|scores: Seq<u64>|
            {
                &&& #[trigger] grid_scored_by(objective, x_values@, y_values@, scores)
                &&& scores.len() == x_values@.len() * y_values@.len()
                &&& all_finite(scores)
                &&& exists|i: int|
                    first_best(scores, i, direction) && best.best_x == grid_x(x_values@, y_values@, i)
                        && best.best_y == grid_y(x_values@, y_values@, i) && best.best_score
                        == scores[i]
            },
        (r is None && x_values@.len() > 0 && y_values@.len() > 0 && all_finite(x_values@)
            && all_finite(y_values@)) ==> exists|scores: Seq<u64>|
            {
                &&& #[trigger] grid_scored_by(objective, x_values@, y_values@, scores)
                &&& scores.len() > 0
                &&& all_finite(scores.drop_last())
                &&& !finite(scores.last())
            },
        r matches Some(best) ==> exists|scores: Seq<u64>|
            #[trigger] best_grid_point(objective, x_values@, y_values@, scores, best, direction),
{
    let mut search = GridSearch2D::start(x_values, y_values, direction);
    let ghost xs = x_values@;
    let ghost ys = y_values@;
    proof {
        if xs.len() > 0 && ys.len() > 0 {
            vstd::arithmetic::div_mod::lemma_fundamental_div_mod_converse(0, ys.len() as int, 0, 0);
            assert(xs.len() * ys.len() > 0) by (nonlinear_arith)
                requires
                    xs.len() > 0,
                    ys.len() > 0,
            ;
        }
    }
    loop
        invariant
            forall|x: u64, y: u64| #[trigger] objective.requires((x, y)),
            xs == x_values@,
            ys == y_values@,
            search.spec_xs() == xs,
            search.spec_ys() == ys,
            search.spec_direction() == direction,
            grid_scored_by(objective, xs, ys, search.spec_scores()),
            (xs.len() == 0 || ys.len() == 0 || !all_finite(xs) || !all_finite(ys))
                ==> search.spec_action() == GridSearchAction2D::Finished(None),
            search.spec_action() is Evaluate ==> {
                &&& xs.len() > 0
                &&& ys.len() > 0
                &&& all_finite(xs)
                &&& all_finite(ys)
                &&& all_finite(search.spec_scores())
                &&& search.spec_scores().len() < xs.len() * ys.len()
                &&& search.spec_action()->x == grid_x(xs, ys, search.spec_scores().len() as int)
                &&& search.spec_action()->y == grid_y(xs, ys, search.spec_scores().len() as int)
            },
            search.spec_action() matches GridSearchAction2D::Finished(Some(best)) ==> {
                &&& search.spec_scores().len() == xs.len() * ys.len()
                &&& all_finite(search.spec_scores())
                &&& exists|i: int|
                    first_best(search.spec_scores(), i, direction) && best.best_x == grid_x(xs, ys, i)
                        && best.best_y == grid_y(xs, ys, i) && best.best_score
                        == search.spec_scores()[i]
            },
            search.spec_action() == GridSearchAction2D::Finished(None) ==> {
                ||| xs.len() == 0
                ||| ys.len() == 0
                ||| !all_finite(xs)
                ||| !all_finite(ys)
                ||| {
                    &&& search.spec_scores().len() > 0
                    &&& all_finite(search.spec_scores().drop_last())
                    &&& !finite(search.spec_scores().last())
                }
            },
        decreases search.steps_left(),
    {
        match search.action() {
            GridSearchAction2D::Evaluate { x, y } => {
                let ghost before = search.spec_scores();
                let score = objective(x, y);
                search.record_score(score);
                proof {
                    let after = search.spec_scores();
                    assert(after.drop_last() =~= before);
                    assert forall|i: int| 0 <= i < after.len() implies objective.ensures(
                        (grid_x(xs, ys, i), grid_y(xs, ys, i)),
                        #[trigger] after[i],
                    ) by {
                        if i < before.len() {
                            assert(after[i] == before[i]);
                        }
                    }
                }
            },
            GridSearchAction2D::Finished(result) => {
                proof {
                    if let Some(best) = result {
                        lemma_best_grid_point(objective, xs, ys, search.spec_scores(), best, direction);
                    }
                }
                return result;
            },
        }
    }
}

} // verus!
