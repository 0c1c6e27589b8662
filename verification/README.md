# use_optimization

Small optimization primitives (objective directions, bounds, search spaces,
scores, losses, grid search and hill-climbing local search), verified with
Verus.

The verified library in `src/` carries every real number as its IEEE-754
binary64 encoding (`f64::to_bits`), and `src/binary64.rs` states what the
library reads of an encoding: finiteness, the numeric order of `<`, `<=` and
`==`, and the total order of `total_cmp`. Every check, comparison, selection,
ranking and search decision is proved against that model.

Binary64 arithmetic (sums, means, differences, square roots, neighbour and
grid-point computation) is not part of the verified library. Where a
procedure mixes arithmetic with decisions, `src/` offers it as a state
machine (`LocalSearch`, `RangeWalk`, `Linspace`, and `GridSearch1D` /
`GridSearch2D` behind `grid_search_1d` / `grid_search_2d`): a driver asks for
the next action, computes what it names and reports the result back.

`app/` is the `f64` face of the library: it converts between `f64` and
encodings, does the arithmetic, and drives the state machines.

Layout:

- `src/binary64.rs`: the encoding model and its comparisons.
- `src/objective.rs`: `ObjectiveDirection`, `is_better`, `best_value`, `ObjectiveValue`.
- `src/constraint.rs`: `Bounds`, `within`, `outside`, `satisfies_all`.
- `src/score.rs`: input checks of a weighted sum, min-max extremes, rankings.
- `src/loss.rs`: input checks of the loss functions.
- `src/search_space.rs`: range walks and linspaces.
- `src/grid_search.rs`: one- and two-dimensional grid search.
- `src/local_search.rs`: one-dimensional hill climbing.
- `tests/`: tests of the library, with `f64` inputs encoded by `to_bits`.
