use b3_local::control::graph::GraphEdge;
use b3_local::control::neighbors::NeighborWalk;
use b3_local::control::GraphDirection;

fn edge(id: &str, from: &str, to: &str, edge_type: &str) -> GraphEdge {
    GraphEdge {
        id: id.to_string(),
        from_node_id: from.to_string(),
        to_node_id: to.to_string(),
        edge_type: edge_type.to_string(),
        confidence: 70,
    }
}

/// Drives a walk over an in-memory graph, as storage would answer it.
fn walk(
    graph: &[GraphEdge],
    seed: &str,
    direction: GraphDirection,
    types: &[&str],
    max_depth: u8,
    limit: usize,
) -> (Vec<String>, Vec<String>, bool, Vec<String>) {
    let mut walk = NeighborWalk::start(
        seed,
        direction,
        types.iter().map(|t| t.to_string()).collect(),
        max_depth,
        limit,
    );
    let mut requested = Vec::new();
    while let Some(node) = walk.next_request() {
        requested.push(node.clone());
        let edges = graph
            .iter()
            .filter(|e| e.from_node_id == node || e.to_node_id == node)
            .cloned()
            .collect();
        walk.receive(edges);
    }
    let (nodes, edges, partial) = walk.finish();
    (nodes, edges.into_iter().map(|e| e.id).collect(), partial, requested)
}

fn graph() -> Vec<GraphEdge> {
    vec![
        edge("e1", "a", "b", "calls"),
        edge("e2", "b", "c", "calls"),
        edge("e3", "d", "a", "imports"),
        edge("e4", "c", "e", "calls"),
    ]
}

#[test]
fn depth_one_reads_direct_neighbours_both_ways() {
    let (nodes, edges, partial, requested) = walk(&graph(), "a", GraphDirection::Both, &[], 1, 10);

    assert_eq!(nodes, vec!["a", "b", "d"]);
    assert_eq!(edges, vec!["e1", "e3"]);
    assert!(!partial);
    assert_eq!(requested, vec!["a"]);
}

#[test]
fn outbound_walk_follows_edge_direction() {
    let (nodes, edges, _, requested) = walk(&graph(), "a", GraphDirection::Outbound, &[], 3, 10);

    assert_eq!(nodes, vec!["a", "b", "c", "e"]);
    assert_eq!(edges, vec!["e1", "e2", "e4"]);
    assert_eq!(requested, vec!["a", "b", "c"]);
}

#[test]
fn inbound_walk_and_type_filter() {
    let (nodes, edges, _, _) = walk(&graph(), "a", GraphDirection::Inbound, &["IMPORTS"], 2, 10);

    assert_eq!(nodes, vec!["a", "d"]);
    assert_eq!(edges, vec!["e3"]);
}

#[test]
fn edge_limit_marks_the_graph_partial() {
    let (nodes, edges, partial, _) = walk(&graph(), "a", GraphDirection::Both, &[], 3, 2);

    assert_eq!(edges.len(), 2);
    assert!(partial);
    assert_eq!(nodes, vec!["a", "b", "d"]);
}

#[test]
fn repeated_edges_are_kept_once() {
    let (_, edges, partial, _) = walk(&graph(), "b", GraphDirection::Both, &[], 2, 10);

    assert_eq!(edges, vec!["e1", "e2", "e3", "e4"]);
    assert!(!partial);
}

#[test]
fn depth_zero_reads_nothing() {
    let (nodes, edges, partial, requested) = walk(&graph(), "a", GraphDirection::Both, &[], 0, 10);

    assert_eq!(nodes, vec!["a"]);
    assert!(edges.is_empty());
    assert!(!partial);
    assert!(requested.is_empty());
}
