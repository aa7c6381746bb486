//! Fixture: order creation used by the semantic search benchmark.
use vstd::prelude::*;

verus! {

/// The identifier of an order: `order:<user>:<sku>`.
pub open spec fn order_id(user_id: Seq<char>, sku: Seq<char>) -> Seq<char> {
    seq!['o', 'r', 'd', 'e', 'r', ':'] + user_id + seq![':'] + sku
}

pub struct OrderService;

impl OrderService {
    pub fn create_order(&self, user_id: &str, sku: &str) -> (r: String)
        ensures
            r@ == order_id(user_id@, sku@),
    {
        let mut out = String::new();
        out.append("order:");
        out.append(user_id);
        out.append(":");
        out.append(sku);
        proof {
            reveal_strlit("order:");
            reveal_strlit(":");
        }
        out
    }
}

pub fn order_creation_flow() {
    let service = OrderService;
    let _order_id = service.create_order("user-1", "sku-1");
}

} // verus!
