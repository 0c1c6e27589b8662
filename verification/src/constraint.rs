//! Inclusive bounds over binary64 values and simple constraint checks.

use vstd::prelude::*;
use crate::binary64::{
    finite,
    float_le,
    float_lt,
    order_key,
    option_float_eq,
    is_finite,
    less_than,
    less_or_equal,
    option_equals,
};

verus! {

/// Inclusive bounds; a missing side is unbounded.
#[derive(Debug, Clone, Copy)]
pub struct Bounds {
    pub min: Option<u64>,
    pub max: Option<u64>,
}

/// Both present sides are finite and the lower does not exceed the upper.
pub open spec fn bounds_valid(b: Bounds) -> bool {
    &&& match b.min {
        Some(lo) => finite(lo),
        None => true,
    }
    &&& match b.max {
        Some(hi) => finite(hi),
        None => true,
    }
    &&& match (b.min, b.max) {
        (Some(lo), Some(hi)) => order_key(lo) <= order_key(hi),
        _ => true,
    }
}

/// `value` is not below the lower side.
pub open spec fn above_min(b: Bounds, value: u64) -> bool {
    match b.min {
        Some(lo) => order_key(lo) <= order_key(value),
        None => true,
    }
}

/// `value` is not above the upper side.
pub open spec fn below_max(b: Bounds, value: u64) -> bool {
    match b.max {
        Some(hi) => order_key(value) <= order_key(hi),
        None => true,
    }
}

/// Valid bounds that admit the finite `value`.
pub open spec fn spec_contains(b: Bounds, value: u64) -> bool {
    bounds_valid(b) && finite(value) && above_min(b, value) && below_max(b, value)
}

/// `value` raised to the lower side when below it, then lowered to the upper
/// side when above it; unchanged when the bounds are invalid or `value` is
/// not finite.
pub open spec fn spec_clamp(b: Bounds, value: u64) -> u64 {
    if !bounds_valid(b) || !finite(value) {
        value
    } else {
        let raised = match b.min {
            Some(lo) => if order_key(value) < order_key(lo) {
                lo
            } else {
                value
            },
            None => value,
        };
        match b.max {
            Some(hi) => if order_key(raised) > order_key(hi) {
                hi
            } else {
                raised
            },
            None => raised,
        }
    }
}

impl Bounds {
    /// Whether the present sides are finite and ordered.
    pub fn is_valid(&self) -> (r: bool)
        ensures
            r == bounds_valid(*self),
    {
        if let Some(lo) = self.min {
            if !is_finite(lo) {
                return false;
            }
        }
        if let Some(hi) = self.max {
            if !is_finite(hi) {
                return false;
            }
        }
        match (self.min, self.max) {
            (Some(lo), Some(hi)) => less_or_equal(lo, hi),
            _ => true,
        }
    }

    /// Whether the bounds are valid and admit the finite `value`.
    pub fn contains(&self, value: u64) -> (r: bool)
        ensures
            r == spec_contains(*self, value),
    {
        if !self.is_valid() || !is_finite(value) {
            return false;
        }
        if let Some(lo) = self.min {
            if less_than(value, lo) {
                return false;
            }
        }
        if let Some(hi) = self.max {
            if less_than(hi, value) {
                return false;
            }
        }
        true
    }

    /// `value` moved into the bounds; unchanged when the bounds are invalid
    /// or `value` is not finite.
    pub fn clamp(&self, value: u64) -> (r: u64)
        ensures
            r == spec_clamp(*self, value),
    {
        if !self.is_valid() || !is_finite(value) {
            return value;
        }
        let mut clamped = value;
        if let Some(lo) = self.min {
            if less_than(clamped, lo) {
                clamped = lo;
            }
        }
        if let Some(hi) = self.max {
            if less_than(hi, clamped) {
                clamped = hi;
            }
        }
        clamped
    }
}

/// Whether `value` lies in `[min, max]`, the bounds being valid.
pub fn within(value: u64, min: u64, max: u64) -> (r: bool)
    ensures
        r == spec_contains(Bounds { min: Some(min), max: Some(max) }, value),
{
    Bounds { min: Some(min), max: Some(max) }.contains(value)
}

/// Whether the finite `value` lies outside the valid bounds `[min, max]`.
pub fn outside(value: u64, min: u64, max: u64) -> (r: bool)
    ensures
        r == ({
            let b = Bounds { min: Some(min), max: Some(max) };
            bounds_valid(b) && finite(value) && !spec_contains(b, value)
        }),
{
    let bounds = Bounds { min: Some(min), max: Some(max) };
    bounds.is_valid() && is_finite(value) && !bounds.contains(value)
}

/// Whether the finite `value` is admitted by every constraint.
pub fn satisfies_all(value: u64, constraints: &[Bounds]) -> (r: bool)
    ensures
        r == (finite(value) && forall|i: int|
            0 <= i < constraints@.len() ==> spec_contains(#[trigger] constraints@[i], value)),
{
    if !is_finite(value) {
        return false;
    }
    let n = constraints.len();
    let mut i: usize = 0;
    while i < n
        invariant
            n == constraints@.len(),
            i <= n,
            forall|j: int| 0 <= j < i ==> spec_contains(#[trigger] constraints@[j], value),
        decreases n - i,
    {
        if !constraints[i].contains(value) {
            assert(!spec_contains(constraints@[i as int], value));
            return false;
        }
        i = i + 1;
    }
    true
}

/// Bounds in numeric terms: they are valid when each present side is finite
/// and the lower one is numerically at most the upper one, and they admit a
/// finite value numerically at or above the lower side and at or below the
/// upper side.
pub proof fn lemma_bounds_numeric(b: Bounds, value: u64)
    ensures
        bounds_valid(b) == ({
            &&& (b.min is Some ==> finite(b.min->0))
            &&& (b.max is Some ==> finite(b.max->0))
            &&& ((b.min is Some && b.max is Some) ==> float_le(b.min->0, b.max->0))
        }),
        spec_contains(b, value) == ({
            &&& bounds_valid(b)
            &&& finite(value)
            &&& (b.min is Some ==> float_le(b.min->0, value))
            &&& (b.max is Some ==> float_le(value, b.max->0))
        }),
{
}

/// Clamping a finite value into valid bounds moves it to the nearest
/// admitted point: it stays when admitted, goes to the lower side when
/// numerically below it, and to the upper side when numerically above it.
pub proof fn lemma_clamp_numeric(b: Bounds, value: u64)
    requires
        bounds_valid(b),
        finite(value),
    ensures
        spec_contains(b, value) ==> spec_clamp(b, value) == value,
        (b.min is Some && float_lt(value, b.min->0)) ==> spec_clamp(b, value) == b.min->0,
        (b.max is Some && float_lt(b.max->0, value)) ==> spec_clamp(b, value) == b.max->0,
        spec_contains(b, spec_clamp(b, value)),
{
}

/// Clamping a finite value into valid bounds lands inside them.
pub proof fn lemma_clamp_lands_inside(b: Bounds, value: u64)
    requires
        bounds_valid(b),
        finite(value),
    ensures
        spec_contains(b, spec_clamp(b, value)),
{
}

/// A value the bounds already admit is left exactly as it is.
pub proof fn lemma_clamp_keeps_admitted(b: Bounds, value: u64)
    requires
        spec_contains(b, value),
    ensures
        spec_clamp(b, value) == value,
{
}

/// Clamping twice is clamping once.
pub proof fn lemma_clamp_idempotent(b: Bounds, value: u64)
    ensures
        spec_clamp(b, spec_clamp(b, value)) == spec_clamp(b, value),
{
    if bounds_valid(b) && finite(value) {
        lemma_clamp_lands_inside(b, value);
        lemma_clamp_keeps_admitted(b, spec_clamp(b, value));
    }
}

/// For valid bounds `[min, max]` and a finite value, the value is either
/// within or outside, never both; otherwise it is neither.
pub proof fn lemma_within_outside_partition(value: u64, min: u64, max: u64)
    ensures
        ({
            let b = Bounds { min: Some(min), max: Some(max) };
            let inside = spec_contains(b, value);
            let out = bounds_valid(b) && finite(value) && !spec_contains(b, value);
            &&& !(inside && out)
            &&& (bounds_valid(b) && finite(value)) ==> (inside || out)
            &&& !(bounds_valid(b) && finite(value)) ==> (!inside && !out)
        }),
{
}

/// Two bounds are equal when each side is absent in both or numerically
/// equal in both.
impl PartialEq for Bounds {
    fn eq(&self, other: &Self) -> (r: bool) {
        option_equals(self.min, other.min) && option_equals(self.max, other.max)
    }
}

impl vstd::std_specs::cmp::PartialEqSpecImpl for Bounds {
    open spec fn obeys_eq_spec() -> bool {
        true
    }

    open spec fn eq_spec(&self, other: &Self) -> bool {
        option_float_eq(self.min, other.min) && option_float_eq(self.max, other.max)
    }
}

} // verus!
