use b3_local::control::target_labels::{
    component_label, data_access_label, infrastructure_label, module_label, realtime_label,
    route_label,
};
use b3_local::bench::{source_kind_for_path, SourceKind};
use b3_local::control::scope_targets::{messaging_label, messaging_lookup, messaging_record_matches};

#[test]
fn messaging_scope_values_choose_storage_filters() {
    assert_eq!(messaging_lookup("topic=orders"), (Some("orders".to_string()), None, None));
    assert_eq!(messaging_lookup("queue=a=b"), (None, Some("a=b".to_string()), None));
    assert_eq!(messaging_lookup("routing_key=x.y"), (None, None, Some("x.y".to_string())));
    assert_eq!(messaging_lookup("exchange=ex"), (None, None, None));
    assert_eq!(messaging_lookup("kafka"), (None, None, None));
}

#[test]
fn messaging_records_are_kept_by_scope_value() {
    assert!(messaging_record_matches("exchange=ex", Some("ex"), None, "rabbitmq"));
    assert!(!messaging_record_matches("exchange=ex", Some("other"), None, "rabbitmq"));
    assert!(!messaging_record_matches("pattern=p.*", None, None, "rabbitmq"));
    assert!(messaging_record_matches("topic=orders", None, None, "kafka"));
    assert!(messaging_record_matches("kafka", None, None, "kafka"));
    assert!(!messaging_record_matches("kafka", None, None, "rabbitmq"));
}

#[test]
fn messaging_labels_prefer_topic_then_queue() {
    let names = vec![None, Some("q1".to_string()), Some("rk".to_string()), None, None];
    assert_eq!(messaging_label("rabbitmq", &names, "consumer"), "messaging:rabbitmq:q1");
    assert_eq!(messaging_label("kafka", &vec![None, None, None, None, None], "producer"), "messaging:kafka:producer");
}

#[test]
fn source_kinds_follow_fixture_names() {
    assert_eq!(source_kind_for_path("src/OrderPanel.tsx"), SourceKind::ComponentChunk);
    assert_eq!(source_kind_for_path("app/api/orders/route.ts"), SourceKind::RouteChunk);
    assert_eq!(source_kind_for_path("OrderRepository.cs"), SourceKind::DataAccessChunk);
    assert_eq!(source_kind_for_path("svc/main.go"), SourceKind::GoChunk);
    assert_eq!(source_kind_for_path("lib.rs"), SourceKind::SymbolChunk);
}

#[test]
fn other_scope_targets_are_labelled_by_kind() {
    assert_eq!(route_label("GET", "/api/orders"), "route:GET /api/orders");
    assert_eq!(component_label("OrderPanel"), "component:OrderPanel");
    assert_eq!(module_label("AppModule"), "module:AppModule");
    assert_eq!(data_access_label("efcore", "query"), "data_access:efcore:query");
    assert_eq!(
        realtime_label("signalr", &vec![None, Some("NotifyHub".to_string()), Some("Send".to_string())], "hub"),
        "realtime:signalr:NotifyHub"
    );
    assert_eq!(realtime_label("ws", &vec![None, None, None], "socket"), "realtime:ws:socket");
    assert_eq!(
        infrastructure_label("kubernetes", &Some("api".to_string()), "deployment"),
        "infrastructure:kubernetes:api"
    );
    assert_eq!(infrastructure_label("docker", &None, "service"), "infrastructure:docker:service");
}
