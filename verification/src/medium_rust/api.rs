//! API layer of the layered fixture.
use vstd::prelude::*;

use super::service::{calculate_total, total_value};

verus! {

pub struct ApiController;

impl ApiController {
    pub fn handle(&self) -> (r: usize)
        ensures
            r == total_value(),
    {
        calculate_total()
    }
}

pub fn handle_request() -> (r: usize)
    ensures
        r == total_value(),
{
    let controller = ApiController;
    controller.handle()
}

} // verus!
