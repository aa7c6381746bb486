//! Fixture: a small layered application (api -> service -> storage).
pub mod api;
pub mod service;
pub mod storage;

use vstd::prelude::*;

verus! {

/// Runs one request through every layer.
pub fn run() -> (r: usize)
    ensures
        r == service::total_value(),
{
    api::handle_request()
}

} // verus!
