//! Fixture: a three-function call graph (`entry` calls `branch` and `leaf`).
use vstd::prelude::*;

verus! {

/// The constant a leaf of the call graph returns.
pub open spec fn leaf_value() -> int {
    1
}

pub fn entry() -> (r: usize)
    ensures
        r == 2 * leaf_value(),
{
    branch() + leaf()
}

pub fn branch() -> (r: usize)
    ensures
        r == leaf_value(),
{
    leaf()
}

pub fn leaf() -> (r: usize)
    ensures
        r == leaf_value(),
{
    1
}

} // verus!
