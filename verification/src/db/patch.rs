//! Changes that name only what is to become different.
use vstd::prelude::*;

verus! {

/// What is named, or else what was there.
pub open spec fn named_or<T>(named: Option<T>, old: T) -> T {
    match named {
        Some(value) => value,
        None => old,
    }
}

/// What is named, or else what was there.
pub(crate) fn or_old<T>(named: Option<T>, old: T) -> (r: T)
    ensures
        r == named_or(named, old),
{
    match named {
        Some(value) => value,
        None => old,
    }
}

/// What is named takes the place of what was there, and what is not named leaves it.
pub proof fn named_values_replace<T>(named: T, old_value: T)
    ensures
        named_or(Some(named), old_value) == named,
        named_or(None, old_value) == old_value,
{
}

} // verus!
