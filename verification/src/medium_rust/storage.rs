//! Storage layer of the layered fixture.
use vstd::prelude::*;

verus! {

/// The number of stored orders.
pub open spec fn stored_count() -> int {
    1
}

pub struct OrderRepository;

impl OrderRepository {
    pub fn count(&self) -> (r: usize)
        ensures
            r == stored_count(),
    {
        1
    }
}

pub fn load_count() -> (r: usize)
    ensures
        r == stored_count(),
{
    let repository = OrderRepository;
    repository.count()
}

} // verus!
