use b3_local::call_graph::{branch, entry, leaf};
use b3_local::medium_rust::api::{handle_request, ApiController};
use b3_local::medium_rust::run;
use b3_local::medium_rust::service::{calculate_total, Calculator, OrderService};
use b3_local::medium_rust::storage::{load_count, OrderRepository};
use b3_local::orders;

#[test]
fn entry_test() {
    assert_eq!(entry(), 2);
}

#[test]
fn run_returns_value() {
    assert_eq!(run(), 3);
}

#[test]
fn call_graph_layers_return_leaf_values() {
    assert_eq!(leaf(), 1);
    assert_eq!(branch(), 1);
}

#[test]
fn medium_fixture_layers_agree() {
    assert_eq!(handle_request(), run());
    assert_eq!(ApiController.handle(), run());
    assert_eq!(OrderService.calculate(), calculate_total());
    assert_eq!(OrderRepository.count(), load_count());
}

#[test]
fn order_ids_join_user_and_sku() {
    let service = orders::OrderService;
    assert_eq!(service.create_order("u1", "sku-9"), "order:u1:sku-9");
    orders::order_creation_flow();
}
