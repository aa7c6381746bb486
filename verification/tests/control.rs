use b3_local::control::graph::{confidence_summary, edge_matches_direction, filtered_edges, GraphEdge};
use b3_local::control::{
    bounded_limit, checked_confidence, checked_graph_depth, checked_graph_limit, is_localhost_origin,
    validate_optional_id, GraphCentralityRequest, GraphCyclesRequest, GraphDirection,
    GraphNeighborsRequest, GraphPathRequest, IndexStatusResponse, ProjectCommandOptions,
    QueryApiRequest, QueryScope,
};

fn scope(project: &str) -> QueryScope {
    QueryScope {
        project_id: project.to_string(),
        branch_id: None,
        path_prefix: None,
    }
}

fn edge(id: &str, from: &str, to: &str, edge_type: &str, confidence: u16) -> GraphEdge {
    GraphEdge {
        id: id.to_string(),
        from_node_id: from.to_string(),
        to_node_id: to.to_string(),
        edge_type: edge_type.to_string(),
        confidence,
    }
}

#[test]
fn scopes_require_a_project_and_no_empty_fields() {
    assert!(scope("p").validate().is_ok());
    let error = scope(" ").validate().unwrap_err();
    assert_eq!(error.status, 400);
    assert_eq!(error.message, "scope.project_id is required");
    let mut s = scope("p");
    s.branch_id = Some(String::new());
    assert_eq!(
        s.validate().unwrap_err().message,
        "scope.branch_id must not be empty when provided"
    );
    let mut s = scope("p");
    s.path_prefix = Some(String::new());
    assert!(s.validate().unwrap_err().message.contains("path_prefix"));
    assert_eq!(scope("p").branch_id_or_default(), "main");
}

#[test]
fn limits_depths_and_confidence_are_bounded() {
    assert_eq!(bounded_limit(None), 50);
    assert_eq!(bounded_limit(Some(500)), 200);
    assert_eq!(checked_graph_limit(None).unwrap(), 50);
    assert_eq!(
        checked_graph_limit(Some(0)).unwrap_err().message,
        "limit must be greater than zero"
    );
    assert_eq!(
        checked_graph_limit(Some(201)).unwrap_err().message,
        "limit must be less than or equal to 200"
    );
    assert_eq!(checked_graph_depth(None).unwrap(), 1);
    assert_eq!(
        checked_graph_depth(Some(4)).unwrap_err().message,
        "max_depth must be less than or equal to 3"
    );
    assert_eq!(checked_confidence(Some(10_000)).unwrap(), 10_000);
    assert!(checked_confidence(Some(10_001)).is_err());
    assert_eq!(
        validate_optional_id(Some(""), "node_id").unwrap_err().message,
        "node_id must not be empty when provided"
    );
    assert!(validate_optional_id(None, "node_id").is_ok());
}

#[test]
fn requests_report_the_first_failing_check() {
    let request = QueryApiRequest {
        query: None,
        symbol: None,
        scope: scope("p"),
        include_trace: None,
        limit: Some(0),
        token_budget: None,
    };
    assert_eq!(request.validate().unwrap_err().message, "limit must be greater than zero");
    let neighbors = GraphNeighborsRequest {
        scope: scope("p"),
        seed_node_id: Some(String::new()),
        seed_symbol_id: None,
        node_id: None,
        direction: None,
        depth: Some(9),
        max_depth: None,
        limit: None,
        min_confidence: None,
        edge_types: None,
    };
    assert_eq!(
        neighbors.validate().unwrap_err().message,
        "seed_node_id must not be empty when provided"
    );
    let path = GraphPathRequest {
        scope: scope("p"),
        source_node_id: Some("a".to_string()),
        target_node_id: Some("b".to_string()),
        from_node_id: None,
        to_node_id: None,
        depth: Some(9),
        max_depth: Some(2),
        limit: None,
        min_confidence: None,
        edge_types: None,
    };
    assert!(path.validate().is_ok());
    let cycles = GraphCyclesRequest {
        scope: scope("p"),
        limit: None,
        min_confidence: Some(20_000),
        edge_types: None,
    };
    assert!(cycles.validate().unwrap_err().message.contains("min_confidence"));
    let centrality = GraphCentralityRequest {
        scope: scope(""),
        limit: Some(0),
    };
    assert_eq!(centrality.validate().unwrap_err().message, "scope.project_id is required");
}

#[test]
fn edges_filter_by_type_ignoring_case() {
    let edges = vec![
        edge("1", "a", "b", "calls", 9000),
        edge("2", "b", "c", "Imports", 5000),
        edge("3", "c", "a", "reads", 100),
    ];
    let kept = filtered_edges(edges.clone(), &vec!["CALLS".to_string(), "imports".to_string()]);
    assert_eq!(kept.len(), 2);
    assert_eq!(kept[1].id, "2");
    assert_eq!(filtered_edges(edges.clone(), &Vec::new()), edges);
}

#[test]
fn directions_and_confidence_summaries() {
    let e = edge("1", "a", "b", "calls", 9000);
    assert!(edge_matches_direction(&e, "a", GraphDirection::Outbound));
    assert!(!edge_matches_direction(&e, "a", GraphDirection::Inbound));
    assert!(edge_matches_direction(&e, "b", GraphDirection::Both));
    assert_eq!(GraphDirection::default(), GraphDirection::Both);
    assert_eq!(confidence_summary(&Vec::new()), None);
    let path = vec![e, edge("2", "b", "c", "calls", 5001)];
    assert_eq!(confidence_summary(&path).as_deref(), Some("min=5001; avg=7000"));
}

#[test]
fn command_defaults() {
    let options = ProjectCommandOptions::default();
    assert_eq!(options.project_path, ".");
    assert_eq!(options.database_path, ".b3/b3.db");
    assert_eq!(IndexStatusResponse::default().status, "idle");
}

#[test]
fn only_local_browser_origins_are_allowed() {
    assert!(is_localhost_origin(Some("http://127.0.0.1:8888")));
    assert!(is_localhost_origin(Some("http://localhost:3000")));
    assert!(is_localhost_origin(Some("http://[::1]:8888")));
    assert!(!is_localhost_origin(Some("https://localhost:8888")));
    assert!(!is_localhost_origin(Some("http://example.com")));
    assert!(!is_localhost_origin(None));
}

#[test]
fn local_bind_is_default_and_non_local_requires_opt_in() {
    let default_options = b3_local::control::ServeOptions::default();
    assert_eq!(default_options.bind_host, "127.0.0.1");
    assert!(default_options.validate().is_ok());

    let mut non_local = default_options;
    non_local.bind_host = "0.0.0.0".to_string();
    non_local.bind_is_loopback = false;
    let error = non_local.validate().expect_err("non-local");
    assert_eq!(error.status, 400);
    assert_eq!(error.message, "non-local bind addresses require --allow-non-local-bind");
    non_local.allow_non_local_bind = true;
    assert!(non_local.validate().is_ok());
}
