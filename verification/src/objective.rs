//! Objective directions, and choosing the better of binary64 values without
//! an `Ord` over them.

use vstd::prelude::*;
use crate::binary64::{
    all_finite,
    finite,
    float_eq,
    float_le,
    float_lt,
    order_key,
    is_finite,
    less_than,
    all_finite_values,
    equals,
};

verus! {

/// Whether smaller or larger scores are better.
#[derive(Debug, Clone, Copy, PartialEq, Eq, Structural)]
pub enum ObjectiveDirection {
    Minimize,
    Maximize,
}

/// `candidate` is strictly better than `incumbent`: both are finite, and
/// `candidate` is numerically smaller (minimizing) or larger (maximizing).
pub open spec fn spec_is_better(candidate: u64, incumbent: u64, direction: ObjectiveDirection) -> bool {
    &&& finite(candidate)
    &&& finite(incumbent)
    &&& match direction {
        ObjectiveDirection::Minimize => order_key(candidate) < order_key(incumbent),
        ObjectiveDirection::Maximize => order_key(candidate) > order_key(incumbent),
    }
}

/// Among the first `n` elements of `s`, no element is better than `s[i]`, and
/// `s[i]` is the first of them with its numeric value.
pub open spec fn first_best_in(s: Seq<u64>, n: int, i: int, direction: ObjectiveDirection) -> bool {
    &&& 0 <= i < n <= s.len()
    &&& forall|j: int| 0 <= j < n ==> !spec_is_better(#[trigger] s[j], s[i], direction)
    &&& forall|j: int| 0 <= j < i ==> order_key(#[trigger] s[j]) != order_key(s[i])
}

/// `s[i]` is the first best element of the whole of `s`.
pub open spec fn first_best(s: Seq<u64>, i: int, direction: ObjectiveDirection) -> bool {
    first_best_in(s, s.len() as int, i, direction)
}

/// `s[i]` is numerically the smallest element of `s` (minimizing) or the
/// largest (maximizing), and no earlier element is numerically equal to it.
pub open spec fn is_numeric_first_extreme(s: Seq<u64>, i: int, direction: ObjectiveDirection) -> bool {
    &&& 0 <= i < s.len()
    &&& forall|j: int|
        0 <= j < s.len() ==> (direction == ObjectiveDirection::Minimize ==> float_le(
            s[i],
            #[trigger] s[j],
        )) && (direction == ObjectiveDirection::Maximize ==> float_le(s[j], s[i]))
    &&& forall|j: int| 0 <= j < i ==> !float_eq(#[trigger] s[j], s[i])
}

/// Being better is the numeric order of the two values: for finite values,
/// strictly smaller when minimizing and strictly larger when maximizing; a
/// non-finite value is never better and nothing is better than it.
pub proof fn lemma_is_better_is_numeric_order(candidate: u64, incumbent: u64)
    ensures
        (finite(candidate) && finite(incumbent)) ==> {
            &&& spec_is_better(candidate, incumbent, ObjectiveDirection::Minimize) == float_lt(
                candidate,
                incumbent,
            )
            &&& spec_is_better(candidate, incumbent, ObjectiveDirection::Maximize) == float_lt(
                incumbent,
                candidate,
            )
        },
        !(finite(candidate) && finite(incumbent)) ==> {
            &&& !spec_is_better(candidate, incumbent, ObjectiveDirection::Minimize)
            &&& !spec_is_better(candidate, incumbent, ObjectiveDirection::Maximize)
        },
{
}

/// The first best element of an all-finite sequence is its first numeric
/// minimum (minimizing) or maximum (maximizing).
pub proof fn lemma_first_best_is_numeric_first_extreme(s: Seq<u64>, i: int, direction: ObjectiveDirection)
    requires
        all_finite(s),
        first_best(s, i, direction),
    ensures
        is_numeric_first_extreme(s, i, direction),
{
    assert forall|j: int| 0 <= j < s.len() implies (direction == ObjectiveDirection::Minimize
        ==> float_le(s[i], #[trigger] s[j])) && (direction == ObjectiveDirection::Maximize
        ==> float_le(s[j], s[i])) by {
        lemma_is_better_is_numeric_order(s[j], s[i]);
        assert(finite(s[j]) && finite(s[i]));
        assert(!spec_is_better(s[j], s[i], direction));
    }
    assert forall|j: int| 0 <= j < i implies !float_eq(#[trigger] s[j], s[i]) by {
        assert(order_key(s[j]) != order_key(s[i]));
    }
}

/// Whether `candidate` is strictly better than `incumbent` in `direction`.
/// A non-finite value is never better, and nothing is better than it.
pub fn is_better(candidate: u64, incumbent: u64, direction: ObjectiveDirection) -> (r: bool)
    ensures
        r == spec_is_better(candidate, incumbent, direction),
{
    if !is_finite(candidate) || !is_finite(incumbent) {
        return false;
    }
    match direction {
        ObjectiveDirection::Minimize => less_than(candidate, incumbent),
        ObjectiveDirection::Maximize => less_than(incumbent, candidate),
    }
}

/// One more element of an all-finite sequence keeps or replaces the first
/// best element, as a scan that moves only on strict improvement does.
pub proof fn lemma_first_best_extend(s: Seq<u64>, n: int, i: int, direction: ObjectiveDirection)
    requires
        all_finite(s),
        n < s.len(),
        first_best_in(s, n, i, direction),
    ensures
        spec_is_better(s[n], s[i], direction) ==> first_best_in(s, n + 1, n, direction),
        !spec_is_better(s[n], s[i], direction) ==> first_best_in(s, n + 1, i, direction),
{
    assert(finite(s[n]));
    assert(finite(s[i]));
    if spec_is_better(s[n], s[i], direction) {
        assert forall|j: int| 0 <= j < n + 1 implies !spec_is_better(#[trigger] s[j], s[n], direction) by {
            if j < n {
                assert(!spec_is_better(s[j], s[i], direction));
                assert(finite(s[j]));
            }
        }
        assert forall|j: int| 0 <= j < n implies order_key(#[trigger] s[j]) != order_key(s[n]) by {
            assert(!spec_is_better(s[j], s[i], direction));
            assert(finite(s[j]));
        }
    }
}

/// The first best element of a sequence is unique.
pub proof fn lemma_first_best_unique(s: Seq<u64>, i: int, k: int, direction: ObjectiveDirection)
    requires
        all_finite(s),
        first_best(s, i, direction),
        first_best(s, k, direction),
    ensures
        i == k,
{
    assert(finite(s[i]) && finite(s[k]));
    assert(!spec_is_better(s[i], s[k], direction));
    assert(!spec_is_better(s[k], s[i], direction));
    if i < k {
        assert(order_key(s[i]) != order_key(s[k]));
    } else if k < i {
        assert(order_key(s[k]) != order_key(s[i]));
    }
}

/// The best finite value of `values`: no value is better, and among the
/// values numerically equal to it the first is returned. `None` when
/// `values` is empty or holds a non-finite value.
pub fn best_value(values: &[u64], direction: ObjectiveDirection) -> (r: Option<u64>)
    ensures
        r is None <==> (values@.len() == 0 || !all_finite(values@)),
        r matches Some(b) ==> exists|i: int| first_best(values@, i, direction) && values@[i] == b,
        r matches Some(b) ==> exists|i: int|
            {
                &&& 0 <= i < values@.len()
                &&& #[trigger] values@[i] == b
                &&& forall|j: int|
                    0 <= j < values@.len() ==> (direction == ObjectiveDirection::Minimize
                        ==> float_le(b, #[trigger] values@[j])) && (direction
                        == ObjectiveDirection::Maximize ==> float_le(values@[j], b))
                &&& forall|j: int| 0 <= j < i ==> !float_eq(#[trigger] values@[j], b)
            },
{
    let n = values.len();
    if n == 0 {
        return None;
    }
    if !all_finite_values(values) {
        return None;
    }
    let mut best = values[0];
    let ghost mut best_index: int = 0;
    let mut i: usize = 1;
    while i < n
        invariant
            n == values@.len(),
            1 <= i <= n,
            all_finite(values@),
            first_best_in(values@, i as int, best_index, direction),
            best == values@[best_index],
        decreases n - i,
    {
        proof {
            lemma_first_best_extend(values@, i as int, best_index, direction);
        }
        if is_better(values[i], best, direction) {
            best = values[i];
            proof {
                best_index = i as int;
            }
        }
        i = i + 1;
    }
    proof {
        lemma_first_best_is_numeric_first_extreme(values@, best_index, direction);
    }
    Some(best)
}

/// `is_better` is irreflexive.
pub proof fn lemma_is_better_irreflexive(a: u64, direction: ObjectiveDirection)
    ensures
        !spec_is_better(a, a, direction),
{
}

/// `is_better` is asymmetric.
pub proof fn lemma_is_better_asymmetric(a: u64, b: u64, direction: ObjectiveDirection)
    ensures
        spec_is_better(a, b, direction) ==> !spec_is_better(b, a, direction),
{
}

/// `is_better` is transitive.
pub proof fn lemma_is_better_transitive(a: u64, b: u64, c: u64, direction: ObjectiveDirection)
    requires
        spec_is_better(a, b, direction),
        spec_is_better(b, c, direction),
    ensures
        spec_is_better(a, c, direction),
{
}

/// Better when minimizing is worse when maximizing.
pub proof fn lemma_is_better_directions_mirror(a: u64, b: u64)
    ensures
        spec_is_better(a, b, ObjectiveDirection::Minimize) == spec_is_better(
            b,
            a,
            ObjectiveDirection::Maximize,
        ),
{
}

/// Of two finite values that are not numerically equal, exactly one is
/// better than the other.
pub proof fn lemma_is_better_total_on_finite(a: u64, b: u64, direction: ObjectiveDirection)
    requires
        finite(a),
        finite(b),
        order_key(a) != order_key(b),
    ensures
        spec_is_better(a, b, direction) != spec_is_better(b, a, direction),
{
}

/// A finite value together with the direction in which it is judged.
#[derive(Debug, Clone, Copy)]
pub struct ObjectiveValue {
    value: u64,
    direction: ObjectiveDirection,
}

impl ObjectiveValue {
    #[verifier::type_invariant]
    spec fn holds_finite_value(self) -> bool {
        finite(self.value)
    }

    /// The value held.
    pub closed spec fn spec_value(self) -> u64 {
        self.value
    }

    /// The direction held.
    pub closed spec fn spec_direction(self) -> ObjectiveDirection {
        self.direction
    }

    /// Pairs `value` with `direction`; `None` when `value` is not finite.
    pub fn new(value: u64, direction: ObjectiveDirection) -> (r: Option<Self>)
        ensures
            r is Some <==> finite(value),
            r matches Some(o) ==> o.spec_value() == value && o.spec_direction() == direction,
    {
        if !is_finite(value) {
            return None;
        }
        Some(ObjectiveValue { value, direction })
    }

    /// The value held, which is finite.
    pub fn value(self) -> (r: u64)
        ensures
            r == self.spec_value(),
            finite(r),
    {
        proof {
            use_type_invariant(&self);
        }
        self.value
    }

    /// The direction held.
    pub fn direction(self) -> (r: ObjectiveDirection)
        ensures
            r == self.spec_direction(),
    {
        self.direction
    }

    /// Whether this value is better than `other`; `None` when the two are
    /// judged in different directions.
    pub fn is_better_than(&self, other: &Self) -> (r: Option<bool>)
        ensures
            r == (if self.spec_direction() != other.spec_direction() {
                None
            } else {
                Some(spec_is_better(self.spec_value(), other.spec_value(), self.spec_direction()))
            }),
    {
        if self.direction != other.direction {
            return None;
        }
        Some(is_better(self.value, other.value, self.direction))
    }

    /// The better of the two: `self` when it is strictly better, else
    /// `other`; `None` when the two are judged in different directions.
    pub fn better(self, other: Self) -> (r: Option<Self>)
        ensures
            r == (if self.spec_direction() != other.spec_direction() {
                None
            } else if spec_is_better(self.spec_value(), other.spec_value(), self.spec_direction()) {
                Some(self)
            } else {
                Some(other)
            }),
    {
        match self.is_better_than(&other) {
            None => None,
            Some(self_is_better) => if self_is_better {
                Some(self)
            } else {
                Some(other)
            },
        }
    }
}

/// Two objective values are equal when their values are numerically equal
/// and their directions agree.
impl PartialEq for ObjectiveValue {
    fn eq(&self, other: &Self) -> (r: bool) {
        equals(self.value, other.value) && self.direction == other.direction
    }
}

impl vstd::std_specs::cmp::PartialEqSpecImpl for ObjectiveValue {
    open spec fn obeys_eq_spec() -> bool {
        true
    }

    open spec fn eq_spec(&self, other: &Self) -> bool {
        float_eq(self.spec_value(), other.spec_value()) && self.spec_direction()
            == other.spec_direction()
    }
}

} // verus!
