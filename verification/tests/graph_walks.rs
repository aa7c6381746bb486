use b3_local::control::cycles::{cycle_groups, graph_cycles_outcome, reachable_from};
use b3_local::control::graph::GraphEdge;
use b3_local::control::walk::{graph_path_outcome, path_node_ids, shortest_path};

fn edge(id: &str, from: &str, to: &str, edge_type: &str) -> GraphEdge {
    GraphEdge {
        id: id.to_string(),
        from_node_id: from.to_string(),
        to_node_id: to.to_string(),
        edge_type: edge_type.to_string(),
        confidence: 90,
    }
}

fn ids(path: &[GraphEdge]) -> Vec<String> {
    path.iter().map(|e| e.id.clone()).collect()
}

#[test]
fn shortest_path_follows_edges_in_order() {
    let edges = vec![edge("e1", "a", "b", "calls"), edge("e2", "b", "c", "calls")];
    let path = shortest_path(edges, &Vec::new(), "a", "c", 3).expect("path");

    assert_eq!(ids(&path), vec!["e1", "e2"]);
    assert_eq!(path_node_ids("a", &path), vec!["a", "b", "c"]);
}

#[test]
fn shortest_path_prefers_fewer_edges() {
    let edges = vec![
        edge("e1", "a", "b", "calls"),
        edge("e2", "b", "c", "calls"),
        edge("e3", "a", "c", "calls"),
    ];
    let path = shortest_path(edges, &Vec::new(), "a", "c", 3).expect("path");

    assert_eq!(ids(&path), vec!["e3"]);
}

#[test]
fn shortest_path_respects_the_depth_bound() {
    let edges = vec![edge("e1", "a", "b", "calls"), edge("e2", "b", "c", "calls")];

    assert!(shortest_path(edges.clone(), &Vec::new(), "a", "c", 1).is_none());
    assert!(shortest_path(edges, &Vec::new(), "c", "a", 3).is_none());
}

#[test]
fn shortest_path_to_itself_is_empty() {
    let edges = vec![edge("e1", "a", "b", "calls")];
    let path = shortest_path(edges, &Vec::new(), "a", "a", 0).expect("path");

    assert!(path.is_empty());
    assert_eq!(path_node_ids("a", &path), vec!["a"]);
}

#[test]
fn shortest_path_keeps_only_asked_edge_types() {
    let edges = vec![
        edge("e1", "a", "c", "imports"),
        edge("e2", "a", "b", "CALLS"),
        edge("e3", "b", "c", "calls"),
    ];
    let path = shortest_path(edges, &vec!["calls".to_string()], "a", "c", 3).expect("path");

    assert_eq!(ids(&path), vec!["e2", "e3"]);
}

#[test]
fn reachable_nodes_include_the_start() {
    let edges = vec![edge("e1", "a", "b", "calls"), edge("e2", "b", "c", "calls")];
    let mut reached = reachable_from(&edges, &"b".to_string());
    reached.sort();

    assert_eq!(reached, vec!["b", "c"]);
}

#[test]
fn cycle_groups_find_mutual_recursion() {
    let edges = vec![
        edge("e1", "b", "a", "calls"),
        edge("e2", "a", "b", "calls"),
        edge("e3", "b", "c", "imports"),
        edge("e4", "c", "d", "calls"),
        edge("e5", "d", "c", "references"),
        edge("e6", "e", "e", "calls"),
    ];
    let mut groups = cycle_groups(&edges);
    groups.sort_by(|x, y| x.node_ids.cmp(&y.node_ids));

    assert_eq!(groups.len(), 2);
    assert_eq!(groups[0].node_ids, vec!["a", "b"]);
    assert_eq!(groups[0].edge_types, vec!["calls"]);
    assert_eq!(groups[1].node_ids, vec!["c", "d"]);
    assert_eq!(groups[1].edge_types, vec!["calls", "references"]);
}

#[test]
fn acyclic_graph_has_no_cycle_groups() {
    let edges = vec![edge("e1", "a", "b", "calls"), edge("e2", "b", "c", "calls")];

    assert!(cycle_groups(&edges).is_empty());
}

#[test]
fn three_node_cycle_is_one_group() {
    let edges = vec![
        edge("e1", "x", "y", "calls"),
        edge("e2", "y", "z", "calls"),
        edge("e3", "z", "x", "calls"),
    ];
    let groups = cycle_groups(&edges);

    assert_eq!(groups.len(), 1);
    assert_eq!(groups[0].node_ids, vec!["x", "y", "z"]);
}

#[test]
fn cycle_scan_warns_when_it_reaches_the_limit() {
    let edges = vec![
        edge("e1", "a", "b", "calls"),
        edge("e2", "b", "a", "calls"),
        edge("e3", "c", "d", "calls"),
    ];
    let (groups, warning) = graph_cycles_outcome(edges.clone(), &Vec::new(), 2);
    let (all, none) = graph_cycles_outcome(edges, &Vec::new(), 3);

    assert_eq!(groups.len(), 1);
    assert_eq!(
        warning.as_deref(),
        Some("edge scan reached the requested limit; cycle results may be partial")
    );
    assert_eq!(all.len(), 1);
    assert!(none.is_none());
}

#[test]
fn path_outcome_reports_nodes_and_confidence() {
    let mut first = edge("e1", "a", "b", "calls");
    first.confidence = 80;
    let edges = vec![first, edge("e2", "b", "c", "calls")];
    let found = graph_path_outcome(edges.clone(), &Vec::new(), "a", "c", 3);
    let missing = graph_path_outcome(edges, &Vec::new(), "c", "a", 3);

    assert!(found.found);
    assert_eq!(found.path_length, 2);
    assert_eq!(found.node_ids, vec!["a", "b", "c"]);
    assert_eq!(found.confidence_summary.as_deref(), Some("min=80; avg=85"));
    assert!(found.reason.is_none());
    assert!(!missing.found);
    assert_eq!(missing.reason.as_deref(), Some("no bounded path found"));
    assert!(missing.edges.is_empty());
}
