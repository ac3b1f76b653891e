//! Verification primitives: each returns whether the check passed, and the
//! caller decides whether to go on.
use vstd::prelude::*;
use vstd::std_specs::cmp::PartialEqSpec;

verus! {

/// Equality check for a soft invariant; `_label` names it for the caller.
pub fn check_eq<T: PartialEq>(_label: &str, actual: T, expected: T) -> (ok: bool)
    ensures
        T::obeys_eq_spec() ==> ok == actual.eq_spec(&expected),
{
    actual == expected
}

/// Equality check for an invariant that must hold.
pub fn require_eq<T: PartialEq>(_label: &str, actual: T, expected: T) -> (ok: bool)
    ensures
        T::obeys_eq_spec() ==> ok == actual.eq_spec(&expected),
{
    actual == expected
}

/// Bounds check: whether `value` is at most `max`.
pub fn check_in_range(_label: &str, value: u64, max: u64) -> (ok: bool)
    ensures
        ok == (value <= max),
{
    value <= max
}

/// Check of a predicate of the caller's.
pub fn check<F: FnOnce() -> bool>(_label: &str, _expected_desc: &str, predicate: F) -> (ok: bool)
    requires
        call_requires(predicate, ()),
    ensures
        call_ensures(predicate, (), ok),
{
    predicate()
}

} // verus!
