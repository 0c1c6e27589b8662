//! One-dimensional search spaces: stepped ranges and evenly spaced points,
//! as state machines.
//!
//! The points themselves come from binary64 arithmetic, which is done
//! outside: a driver asks for the next `action`, computes what it names,
//! and reports the numbers back. The checks, the stopping rule, the
//! snapping to the end point and the collection of the points are decided
//! here.

use vstd::prelude::*;
use crate::binary64::{
    all_finite,
    finite,
    float_eq,
    float_le,
    float_lt,
    order_key,
    is_finite,
    less_or_equal,
    less_than,
    equals,
};

verus! {

/// Why a search space could not be built.
#[derive(Debug, Clone, Copy, PartialEq, Eq, Structural)]
pub enum SearchSpaceError {
    NonFiniteInput,
    InvalidStep,
    InvalidPointCount,
}

/// The points from `start` towards `end`, `step` apart, in either direction.
#[derive(Debug, Clone, Copy)]
pub struct RangeSpace {
    pub start: u64,
    pub end: u64,
    pub step: u64,
}

/// Two ranges are equal when their ends and steps are numerically equal.
impl PartialEq for RangeSpace {
    fn eq(&self, other: &Self) -> (r: bool) {
        equals(self.start, other.start) && equals(self.end, other.end) && equals(
            self.step,
            other.step,
        )
    }
}

impl vstd::std_specs::cmp::PartialEqSpecImpl for RangeSpace {
    open spec fn obeys_eq_spec() -> bool {
        true
    }

    open spec fn eq_spec(&self, other: &Self) -> bool {
        float_eq(self.start, other.start) && float_eq(self.end, other.end) && float_eq(
            self.step,
            other.step,
        )
    }
}

/// What the driver of a range walk must do next.
#[derive(Debug, Clone, Copy, PartialEq)]
pub enum RangeAction {
    /// Compute the tolerance `step * 1e-12`, and the limit `end + tolerance`
    /// when `increasing`, else `end - tolerance`; report with
    /// `record_tolerance`.
    ComputeTolerance { step: u64, end: u64, increasing: bool },
    /// Compute the distance `|current - end|` and the next point,
    /// `current + step` when `increasing`, else `current - step`; report with
    /// `record_advance`.
    Advance { current: u64, step: u64, end: u64, increasing: bool },
    /// The walk is over; take its outcome with `into_values`.
    Done,
}

/// The outcome of the checks on a range: non-finite inputs first, then a
/// step that is not positive.
pub open spec fn range_check(space: RangeSpace) -> Result<(), SearchSpaceError> {
    if !finite(space.start) || !finite(space.end) || !finite(space.step) {
        Err(SearchSpaceError::NonFiniteInput)
    } else if order_key(space.step) <= 0 {
        Err(SearchSpaceError::InvalidStep)
    } else {
        Ok(())
    }
}

/// A range is refused with `NonFiniteInput` exactly when its start, end or
/// step is not finite, and with `InvalidStep` exactly when all three are
/// finite and the step is not above zero; every range with finite ends and
/// a finite positive step passes.
pub proof fn lemma_range_check(space: RangeSpace)
    ensures
        (range_check(space) == Err::<(), SearchSpaceError>(SearchSpaceError::NonFiniteInput)) == !(
        finite(space.start) && finite(space.end) && finite(space.step)),
        (range_check(space) == Err::<(), SearchSpaceError>(SearchSpaceError::InvalidStep)) == (
        finite(space.start) && finite(space.end) && finite(space.step) && !float_lt(0, space.step)),
        range_check(space) is Ok == (finite(space.start) && finite(space.end) && finite(space.step)
            && float_lt(0, space.step)),
        range_check(space) != Err::<(), SearchSpaceError>(SearchSpaceError::InvalidPointCount),
{
}

/// The walk over a [`RangeSpace`] in progress.
pub struct RangeWalk {
    space: RangeSpace,
    increasing: bool,
    tolerance: u64,
    limit: u64,
    current: u64,
    values: Vec<u64>,
    error: Option<SearchSpaceError>,
    action: RangeAction,
    visited: Ghost<Seq<u64>>,
    walked: Ghost<bool>,
}

impl RangeWalk {
    /// The facts every walk keeps: the points collected are finite, and the
    /// pending action matches the state.
    pub closed spec fn well_formed(self) -> bool {
        &&& all_finite(self.values@)
        &&& self.run_laws()
        &&& match self.action {
            RangeAction::ComputeTolerance { step, end, increasing } => {
                &&& self.walked@
                &&& self.visited@ == seq![self.space.start]
                &&& range_check(self.space) is Ok
                &&& step == self.space.step
                &&& end == self.space.end
                &&& increasing == self.increasing
                &&& self.current == self.space.start
                &&& self.values@.len() == 0
                &&& self.error is None
            },
            RangeAction::Advance { current, step, end, increasing } => {
                &&& range_check(self.space) is Ok
                &&& current == self.current
                &&& finite(self.current)
                &&& step == self.space.step
                &&& end == self.space.end
                &&& increasing == self.increasing
                &&& self.error is None
                &&& self.walked@
                &&& self.visited@.len() == self.values@.len() + 1
                &&& self.visited@.last() == self.current
            },
            RangeAction::Done => true,
        }
    }

    /// The points the walk has stood on, in order: `start`, then each next
    /// point reported.
    pub closed spec fn spec_visited(self) -> Seq<u64> {
        self.visited@
    }

    /// The walk went past its checks into stepping.
    pub closed spec fn spec_walked(self) -> bool {
        self.walked@
    }

    /// `point` lies past the limit, in the direction of the walk.
    pub open spec fn beyond(self, point: u64) -> bool {
        if self.spec_increasing() {
            float_lt(self.spec_limit(), point)
        } else {
            float_lt(point, self.spec_limit())
        }
    }

    /// What holds of every walk, at every point of it:
    /// - `InvalidStep` comes exactly from a finite step that is not positive;
    ///   `NonFiniteInput` from a non-finite start, end or step, or from a
    ///   reported next point that is not finite; no error means the checks
    ///   passed;
    /// - a walk that did not step holds `start` alone, `start` and `end`
    ///   being numerically equal;
    /// - a walk that stepped stood first on `start`, and its `i`-th point is
    ///   `end` or the `i`-th point it stood on, never one past the limit;
    /// - a walk that ended without error after stepping stood last on a
    ///   point past the limit, which it did not collect.
    pub open spec fn run_laws(self) -> bool {
        let space = self.spec_space();
        let values = self.spec_values();
        let visited = self.spec_visited();
        &&& (self.spec_error() == Some(SearchSpaceError::InvalidStep)) == (range_check(space)
            == Err::<(), SearchSpaceError>(SearchSpaceError::InvalidStep))
        &&& self.spec_error() == Some(SearchSpaceError::NonFiniteInput) ==> {
            ||| range_check(space) == Err::<(), SearchSpaceError>(SearchSpaceError::NonFiniteInput)
            ||| (visited.len() > 0 && !finite(visited.last()))
        }
        &&& self.spec_error() is None ==> range_check(space) is Ok
        &&& !self.spec_walked() ==> {
            &&& visited.len() == 0
            &&& self.spec_error() is None ==> values == seq![space.start] && float_eq(
                space.start,
                space.end,
            )
        }
        &&& self.spec_walked() ==> {
            &&& visited.len() >= 1
            &&& visited[0] == space.start
            &&& values.len() <= visited.len()
            &&& forall|i: int|
                0 <= i < values.len() ==> (#[trigger] values[i] == space.end || values[i]
                    == visited[i]) && !self.beyond(visited[i])
        }
        &&& (self.spec_action() is Done && self.spec_error() is None && self.spec_walked()) ==> {
            &&& visited.len() == values.len() + 1
            &&& self.beyond(visited.last())
        }
    }

    /// The range walked.
    pub closed spec fn spec_space(self) -> RangeSpace {
        self.space
    }

    /// Whether the walk goes up.
    pub closed spec fn spec_increasing(self) -> bool {
        self.increasing
    }

    /// The reported tolerance.
    pub closed spec fn spec_tolerance(self) -> u64 {
        self.tolerance
    }

    /// The reported limit past which the walk stops.
    pub closed spec fn spec_limit(self) -> u64 {
        self.limit
    }

    /// The point under consideration.
    pub closed spec fn spec_current(self) -> u64 {
        self.current
    }

    /// The points collected so far.
    pub closed spec fn spec_values(self) -> Seq<u64> {
        self.values@
    }

    /// The error the walk ended with, if any.
    pub closed spec fn spec_error(self) -> Option<SearchSpaceError> {
        self.error
    }

    /// What the driver must do next.
    pub closed spec fn spec_action(self) -> RangeAction {
        self.action
    }

    /// Starts a walk: a failed check ends it with its error; a range whose
    /// start equals its end ends it with that one point; else the driver is
    /// asked for the tolerance.
    pub fn start(space: RangeSpace) -> (w: Self)
        ensures
            w.well_formed(),
            w.run_laws(),
            (finite(space.start) && finite(space.end) && finite(space.step) && float_lt(
                0,
                space.step,
            )) ==> w.spec_error() is None,
            w.spec_space() == space,
            w.spec_current() == space.start,
            match range_check(space) {
                Err(e) => w.spec_action() is Done && w.spec_error() == Some(e) && w.spec_values()
                    == Seq::<u64>::empty(),
                Ok(_) => if float_eq(space.start, space.end) {
                    &&& w.spec_action() is Done
                    &&& w.spec_error() is None
                    &&& w.spec_values() == seq![space.start]
                } else {
                    &&& w.spec_increasing() == float_lt(space.start, space.end)
                    &&& w.spec_error() is None
                    &&& w.spec_action() == (RangeAction::ComputeTolerance {
                        step: space.step,
                        end: space.end,
                        increasing: float_lt(space.start, space.end),
                    })
                    &&& w.spec_values() == Seq::<u64>::empty()
                },
            },
    {
        let done = |error: Option<SearchSpaceError>, values: Vec<u64>| -> (w: RangeWalk)
            requires
                all_finite(values@),
                match error {
                    Some(e) => range_check(space) == Err::<(), SearchSpaceError>(e) && values@.len() == 0,
                    None => range_check(space) is Ok && values@ == seq![space.start] && float_eq(
                        space.start,
                        space.end,
                    ),
                },
            ensures
                w.well_formed(),
                w.space == space && w.current == space.start && w.action is Done && w.error
                    == error && w.values == values,
            {
                RangeWalk {
                    space,
                    increasing: false,
                    tolerance: 0,
                    limit: 0,
                    current: space.start,
                    values,
                    error,
                    action: RangeAction::Done,
                    visited: Ghost(Seq::empty()),
                    walked: Ghost(false),
                }
            };
        if !is_finite(space.start) || !is_finite(space.end) || !is_finite(space.step) {
            return done(Some(SearchSpaceError::NonFiniteInput), Vec::new());
        }
        if less_or_equal(space.step, 0) {
            return done(Some(SearchSpaceError::InvalidStep), Vec::new());
        }
        if equals(space.start, space.end) {
            let mut single: Vec<u64> = Vec::new();
            single.push(space.start);
            assert(single@ == seq![space.start]);
            return done(None, single);
        }
        let increasing = less_than(space.start, space.end);
        let ghost visited = seq![space.start];
        RangeWalk {
            space,
            increasing,
            tolerance: 0,
            limit: 0,
            current: space.start,
            values: Vec::new(),
            error: None,
            action: RangeAction::ComputeTolerance {
                step: space.step,
                end: space.end,
                increasing,
            },
            visited: Ghost(visited),
            walked: Ghost(true),
        }
    }

    /// What the driver must do next.
    pub fn action(&self) -> (r: RangeAction)
        ensures
            r == self.spec_action(),
    {
        self.action
    }

    /// Takes the tolerance and the limit; the walk begins at `start`.
    pub fn record_tolerance(&mut self, tolerance: u64, limit: u64)
        requires
            old(self).well_formed(),
            old(self).spec_action() is ComputeTolerance,
        ensures
            final(self).well_formed(),
            final(self).run_laws(),
            final(self).spec_space() == old(self).spec_space(),
            final(self).spec_increasing() == old(self).spec_increasing(),
            final(self).spec_tolerance() == tolerance,
            final(self).spec_limit() == limit,
            final(self).spec_visited() == old(self).spec_visited(),
            final(self).spec_walked() == old(self).spec_walked(),
            final(self).spec_current() == old(self).spec_space().start,
            final(self).spec_values() == old(self).spec_values(),
            final(self).spec_error() is None,
            final(self).spec_action() == (RangeAction::Advance {
                current: old(self).spec_space().start,
                step: old(self).spec_space().step,
                end: old(self).spec_space().end,
                increasing: old(self).spec_increasing(),
            }),
    {
        self.tolerance = tolerance;
        self.limit = limit;
        self.action = RangeAction::Advance {
            current: self.current,
            step: self.space.step,
            end: self.space.end,
            increasing: self.increasing,
        };
    }

    /// Takes `|current - end|` and the next point. The walk stops when the
    /// current point lies beyond the limit. Otherwise it collects the
    /// current point, or `end` when the distance is within the tolerance;
    /// then a non-finite next point ends it with `NonFiniteInput`, and any
    /// other becomes the current point.
    pub fn record_advance(&mut self, distance: u64, next: u64)
        requires
            old(self).well_formed(),
            old(self).spec_action() is Advance,
        ensures
            final(self).well_formed(),
            final(self).run_laws(),
            final(self).spec_space() == old(self).spec_space(),
            final(self).spec_increasing() == old(self).spec_increasing(),
            final(self).spec_tolerance() == old(self).spec_tolerance(),
            final(self).spec_limit() == old(self).spec_limit(),
            final(self).spec_walked() == old(self).spec_walked(),
            ({
                let w = *old(self);
                let current = w.spec_current();
                let end = w.spec_space().end;
                let beyond = if w.spec_increasing() {
                    float_lt(w.spec_limit(), current)
                } else {
                    float_lt(current, w.spec_limit())
                };
                let point = if float_le(distance, w.spec_tolerance()) {
                    end
                } else {
                    current
                };
                if beyond {
                    &&& final(self).spec_action() is Done
                    &&& final(self).spec_error() is None
                    &&& final(self).spec_values() == w.spec_values()
                    &&& final(self).spec_visited() == w.spec_visited()
                } else if !finite(next) {
                    &&& final(self).spec_action() is Done
                    &&& final(self).spec_error() == Some(SearchSpaceError::NonFiniteInput)
                    &&& final(self).spec_values() == w.spec_values().push(point)
                    &&& final(self).spec_visited() == w.spec_visited().push(next)
                } else {
                    &&& final(self).spec_visited() == w.spec_visited().push(next)
                    &&& final(self).spec_current() == next
                    &&& final(self).spec_error() is None
                    &&& final(self).spec_values() == w.spec_values().push(point)
                    &&& final(self).spec_action() == (RangeAction::Advance {
                        current: next,
                        step: w.spec_space().step,
                        end,
                        increasing: w.spec_increasing(),
                    })
                }
            }),
    {
        let current = self.current;
        let end = self.space.end;
        let beyond = if self.increasing {
            less_than(self.limit, current)
        } else {
            less_than(current, self.limit)
        };
        if beyond {
            self.action = RangeAction::Done;
            proof {
                assert(self.beyond(self.visited@.last()));
                assert(self.visited@.len() == self.values@.len() + 1);
                assert(self.spec_walked());
                assert(range_check(self.space) is Ok);
                let values = self.spec_values();
                let visited = self.spec_visited();
                assert(visited[0] == self.space.start);
                assert(old(self).run_laws());
                assert(old(self).spec_walked());
                assert forall|i: int|
                    0 <= i < values.len() implies (#[trigger] values[i] == self.space.end || values[i]
                        == visited[i]) && !self.beyond(visited[i]) by {
                    assert(old(self).spec_values()[i] == values[i]);
                    assert(old(self).spec_visited()[i] == visited[i]);
                    assert(!old(self).beyond(visited[i]));
                }
                assert(self.run_laws());
            }
            return;
        }
        let point = if less_or_equal(distance, self.tolerance) {
            end
        } else {
            current
        };
        let ghost old_values = self.values@;
        let ghost old_visited = self.visited@;
        self.values.push(point);
        self.visited = Ghost(old_visited.push(next));
        let overflow = !is_finite(next);
        if overflow {
            self.error = Some(SearchSpaceError::NonFiniteInput);
            self.action = RangeAction::Done;
        } else {
            self.current = next;
            self.action = RangeAction::Advance {
                current: next,
                step: self.space.step,
                end,
                increasing: self.increasing,
            };
        }
        proof {
            let n = old_values.len() as int;
            let values = self.spec_values();
            let visited = self.spec_visited();
            assert(old(self).run_laws());
            assert(values[n] == point);
            assert(visited[n] == current);
            assert(visited[0] == old_visited[0]);
            assert(visited.last() == next);
            assert forall|i: int| 0 <= i < values.len() implies finite(#[trigger] values[i]) by {
                if i < n {
                    assert(values[i] == old_values[i]);
                }
            }
            assert forall|i: int|
                0 <= i < values.len() implies (#[trigger] values[i] == self.space.end || values[i]
                    == visited[i]) && !self.beyond(visited[i]) by {
                if i < n {
                    assert(old(self).spec_values()[i] == values[i]);
                    assert(old(self).spec_visited()[i] == visited[i]);
                    assert(!old(self).beyond(visited[i]));
                }
            }
            assert(range_check(self.space) is Ok);
            let space = self.spec_space();
            assert((self.spec_error() == Some(SearchSpaceError::InvalidStep)) == (range_check(space)
                == Err::<(), SearchSpaceError>(SearchSpaceError::InvalidStep)));
            assert(self.spec_walked());
            assert(self.spec_error() == Some(SearchSpaceError::NonFiniteInput) ==> {
                ||| range_check(space) == Err::<(), SearchSpaceError>(SearchSpaceError::NonFiniteInput)
                ||| (visited.len() > 0 && !finite(visited.last()))
            });
            assert(self.spec_error() is None ==> range_check(space) is Ok);
            assert(!self.spec_walked() ==> {
                &&& visited.len() == 0
                &&& self.spec_error() is None ==> values == seq![space.start] && float_eq(
                    space.start,
                    space.end,
                )
            });
            assert((self.spec_action() is Done && self.spec_error() is None && self.spec_walked())
                ==> {
                &&& visited.len() == values.len() + 1
                &&& self.beyond(visited.last())
            });
            assert(self.spec_walked() ==> {
                &&& visited.len() >= 1
                &&& visited[0] == space.start
                &&& values.len() <= visited.len()
                &&& forall|i: int|
                    0 <= i < values.len() ==> (#[trigger] values[i] == space.end || values[i]
                        == visited[i]) && !self.beyond(visited[i])
            });
            assert(self.run_laws());
            assert(all_finite(self.values@));
            assert(self.well_formed());
        }
    }

    /// The outcome of a finished walk: its error, or the points collected,
    /// all of them finite.
    pub fn into_values(self) -> (r: Result<Vec<u64>, SearchSpaceError>)
        requires
            self.well_formed(),
            self.spec_action() is Done,
        ensures
            match self.spec_error() {
                Some(e) => r == Err::<Vec<u64>, SearchSpaceError>(e),
                None => r matches Ok(v) && v@ == self.spec_values(),
            },
            r matches Ok(v) ==> all_finite(v@),
    {
        match self.error {
            Some(e) => Err(e),
            None => Ok(self.values),
        }
    }
}

/// What the driver of a linspace must do next.
#[derive(Debug, Clone, Copy, PartialEq)]
pub enum LinspaceAction {
    /// Compute the spacing `(end - start) / intervals`; report with
    /// `record_step`.
    ComputeStep { start: u64, end: u64, intervals: usize },
    /// Compute the point `start + step * index`; report with `record_point`.
    ComputePoint { start: u64, step: u64, index: usize },
    /// The linspace is over; take its outcome with `into_values`.
    Done,
}

/// The outcome of the checks on a linspace: non-finite ends first, then an
/// empty point count.
pub open spec fn linspace_check(start: u64, end: u64, points: usize) -> Result<(), SearchSpaceError> {
    if !finite(start) || !finite(end) {
        Err(SearchSpaceError::NonFiniteInput)
    } else if points == 0 {
        Err(SearchSpaceError::InvalidPointCount)
    } else {
        Ok(())
    }
}

/// A linspace is refused with `NonFiniteInput` exactly when an end is not
/// finite, and with `InvalidPointCount` exactly when both ends are finite
/// and no point is asked for; any positive number of points between finite
/// ends passes.
pub proof fn lemma_linspace_check(start: u64, end: u64, points: usize)
    ensures
        (linspace_check(start, end, points) == Err::<(), SearchSpaceError>(
            SearchSpaceError::NonFiniteInput,
        )) == !(finite(start) && finite(end)),
        (linspace_check(start, end, points) == Err::<(), SearchSpaceError>(
            SearchSpaceError::InvalidPointCount,
        )) == (finite(start) && finite(end) && points == 0),
        linspace_check(start, end, points) is Ok == (finite(start) && finite(end) && points >= 1),
        linspace_check(start, end, points) != Err::<(), SearchSpaceError>(
            SearchSpaceError::InvalidStep,
        ),
{
}

/// `points` evenly spaced values from `start` to `end`, in progress.
pub struct Linspace {
    start: u64,
    end: u64,
    points: usize,
    step: u64,
    values: Vec<u64>,
    error: Option<SearchSpaceError>,
    action: LinspaceAction,
}

impl Linspace {
    /// The facts every linspace keeps: the pending action matches the points
    /// collected so far.
    pub closed spec fn well_formed(self) -> bool {
        match self.action {
            LinspaceAction::ComputeStep { start, end, intervals } => {
                &&& linspace_check(self.start, self.end, self.points) is Ok
                &&& self.points >= 2
                &&& start == self.start
                &&& end == self.end
                &&& intervals == self.points - 1
                &&& self.values@.len() == 0
                &&& self.error is None
            },
            LinspaceAction::ComputePoint { start, step, index } => {
                &&& linspace_check(self.start, self.end, self.points) is Ok
                &&& self.points >= 2
                &&& start == self.start
                &&& step == self.step
                &&& index == self.values@.len()
                &&& index < self.points - 1
                &&& self.error is None
            },
            LinspaceAction::Done => {
                &&& self.error is None ==> self.values@.len() == self.points
                &&& self.error is None && self.points >= 2 ==> self.values@.last() == self.end
            },
        }
    }

    /// The first end.
    pub closed spec fn spec_start(self) -> u64 {
        self.start
    }

    /// The last end.
    pub closed spec fn spec_end(self) -> u64 {
        self.end
    }

    /// The number of points asked for.
    pub closed spec fn spec_points(self) -> usize {
        self.points
    }

    /// The reported spacing.
    pub closed spec fn spec_step(self) -> u64 {
        self.step
    }

    /// The points collected so far.
    pub closed spec fn spec_values(self) -> Seq<u64> {
        self.values@
    }

    /// The error the linspace ended with, if any.
    pub closed spec fn spec_error(self) -> Option<SearchSpaceError> {
        self.error
    }

    /// What the driver must do next.
    pub closed spec fn spec_action(self) -> LinspaceAction {
        self.action
    }

    /// The number of reports still to come; zero exactly when it is over.
    pub open spec fn steps_left(self) -> nat {
        match self.spec_action() {
            LinspaceAction::ComputeStep { .. } => self.spec_points() as nat,
            LinspaceAction::ComputePoint { index, .. } => (self.spec_points() - 1 - index) as nat,
            LinspaceAction::Done => 0,
        }
    }

    /// Starts a linspace: a failed check ends it with its error; one point
    /// ends it with `start` alone; else the driver is asked for the spacing.
    pub fn start(start: u64, end: u64, points: usize) -> (l: Self)
        ensures
            l.well_formed(),
            (finite(start) && finite(end) && points >= 1) ==> l.spec_error() is None,
            l.spec_start() == start,
            l.spec_end() == end,
            l.spec_points() == points,
            match linspace_check(start, end, points) {
                Err(e) => l.spec_action() is Done && l.spec_error() == Some(e),
                Ok(_) => if points == 1 {
                    &&& l.spec_action() is Done
                    &&& l.spec_error() is None
                    &&& l.spec_values() == seq![start]
                } else {
                    &&& l.spec_action() == (LinspaceAction::ComputeStep {
                        start,
                        end,
                        intervals: (points - 1) as usize,
                    })
                    &&& l.spec_values() == Seq::<u64>::empty()
                    &&& l.spec_error() is None
                },
            },
    {
        let mut values: Vec<u64> = Vec::new();
        let (error, action) = if !is_finite(start) || !is_finite(end) {
            (Some(SearchSpaceError::NonFiniteInput), LinspaceAction::Done)
        } else if points == 0 {
            (Some(SearchSpaceError::InvalidPointCount), LinspaceAction::Done)
        } else if points == 1 {
            values.push(start);
            (None, LinspaceAction::Done)
        } else {
            (None, LinspaceAction::ComputeStep { start, end, intervals: points - 1 })
        };
        proof {
            if points == 1 && error is None {
                assert(values@ == seq![start]);
            }
        }
        Linspace { start, end, points, step: 0, values, error, action }
    }

    /// What the driver must do next.
    pub fn action(&self) -> (r: LinspaceAction)
        ensures
            r == self.spec_action(),
    {
        self.action
    }

    /// Takes the spacing; the driver is then asked for the first point.
    pub fn record_step(&mut self, step: u64)
        requires
            old(self).well_formed(),
            old(self).spec_action() is ComputeStep,
        ensures
            final(self).well_formed(),
            final(self).spec_start() == old(self).spec_start(),
            final(self).spec_end() == old(self).spec_end(),
            final(self).spec_points() == old(self).spec_points(),
            final(self).spec_step() == step,
            final(self).spec_values() == old(self).spec_values(),
            final(self).spec_error() is None,
            final(self).steps_left() < old(self).steps_left(),
            final(self).spec_action() == (LinspaceAction::ComputePoint {
                start: old(self).spec_start(),
                step,
                index: 0,
            }),
    {
        self.step = step;
        self.action = LinspaceAction::ComputePoint { start: self.start, step, index: 0 };
    }

    /// Takes a point before the last; after the one before the last, `end`
    /// itself is collected as the last point and the linspace is over.
    pub fn record_point(&mut self, point: u64)
        requires
            old(self).well_formed(),
            old(self).spec_action() is ComputePoint,
        ensures
            final(self).well_formed(),
            final(self).spec_start() == old(self).spec_start(),
            final(self).spec_end() == old(self).spec_end(),
            final(self).spec_points() == old(self).spec_points(),
            final(self).spec_step() == old(self).spec_step(),
            final(self).spec_error() is None,
            final(self).steps_left() < old(self).steps_left(),
            ({
                let l = *old(self);
                let index = l.spec_action()->index;
                if index + 2 == l.spec_points() {
                    &&& final(self).spec_action() is Done
                    &&& final(self).spec_values() == l.spec_values().push(point).push(l.spec_end())
                } else {
                    &&& final(self).spec_values() == l.spec_values().push(point)
                    &&& final(self).spec_action() == (LinspaceAction::ComputePoint {
                        start: l.spec_start(),
                        step: l.spec_step(),
                        index: (index + 1) as usize,
                    })
                }
            }),
    {
        let index = match self.action {
            LinspaceAction::ComputePoint { index, .. } => index,
            _ => 0,
        };
        self.values.push(point);
        if index + 2 == self.points {
            self.values.push(self.end);
            self.action = LinspaceAction::Done;
        } else {
            self.action = LinspaceAction::ComputePoint {
                start: self.start,
                step: self.step,
                index: index + 1,
            };
        }
    }

    /// The outcome of a finished linspace: its error, or its points, as many
    /// as were asked for and ending with `end` (or the single `start`).
    pub fn into_values(self) -> (r: Result<Vec<u64>, SearchSpaceError>)
        requires
            self.well_formed(),
            self.spec_action() is Done,
        ensures
            match self.spec_error() {
                Some(e) => r == Err::<Vec<u64>, SearchSpaceError>(e),
                None => r matches Ok(v) && v@ == self.spec_values(),
            },
            r matches Ok(v) ==> v@.len() == self.spec_points(),
            r matches Ok(v) ==> (self.spec_points() >= 2 ==> v@.last() == self.spec_end()),
    {
        match self.error {
            Some(e) => Err(e),
            None => Ok(self.values),
        }
    }
}

} // verus!
