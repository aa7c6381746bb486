//! Service layer of the layered fixture.
use vstd::prelude::*;

use super::storage::{load_count, stored_count};

verus! {

/// What the helper adds to the stored count.
pub open spec fn helper_value() -> int {
    2
}

/// The total every request computes: the stored count plus the helper value.
pub open spec fn total_value() -> int {
    stored_count() + helper_value()
}

pub trait Calculator {
    fn calculate(&self) -> (r: usize)
        ensures
            r == total_value(),
    ;
}

pub struct OrderService;

impl Calculator for OrderService {
    fn calculate(&self) -> (r: usize) {
        load_count() + helper()
    }
}

pub fn calculate_total() -> (r: usize)
    ensures
        r == total_value(),
{
    OrderService.calculate()
}

fn helper() -> (r: usize)
    ensures
        r == helper_value(),
{
    2
}

} // verus!
