//! Edges of the code graph as the graph endpoints read them: filtering by
//! edge type, matching a walk's direction, and summarising confidences.
use vstd::prelude::*;

use crate::control::GraphDirection;
use crate::text::{chars_of, dec, lower, lower_vec, push_dec, push_str, string_from_chars, strings_view, Lines};

verus! {

broadcast use vstd::string::group_string_axioms;

/// An edge of the code graph.
#[derive(Debug, Clone, PartialEq, Eq)]
pub struct GraphEdge {
    pub id: String,
    pub from_node_id: String,
    pub to_node_id: String,
    pub edge_type: String,
    pub confidence: u16,
}

#[verifier::ext_equal]
pub struct EdgeView {
    pub id: Seq<char>,
    pub from: Seq<char>,
    pub to: Seq<char>,
    pub edge_type: Seq<char>,
    pub confidence: u16,
}

impl View for GraphEdge {
    type V = EdgeView;

    open spec fn view(&self) -> EdgeView {
        EdgeView {
            id: self.id@,
            from: self.from_node_id@,
            to: self.to_node_id@,
            edge_type: self.edge_type@,
            confidence: self.confidence,
        }
    }
}

pub open spec fn edges_view(v: Seq<GraphEdge>) -> Seq<EdgeView> {
    v.map_values(|e: GraphEdge| e@)
}

/// An edge whose type is one of `types`, ignoring ASCII case.
pub open spec fn type_allowed(types: Lines) -> spec_fn(EdgeView) -> bool {
    |e: EdgeView| exists|i: int| 0 <= i < types.len() && lower(#[trigger] types[i]) == lower(e.edge_type)
}

/// The edges whose type is asked for; all of them when no type is.
pub open spec fn edges_of_types(es: Seq<EdgeView>, types: Lines) -> Seq<EdgeView> {
    if types.len() == 0 {
        es
    } else {
        es.filter(type_allowed(types))
    }
}

pub(crate) fn clone_edge(e: &GraphEdge) -> (r: GraphEdge)
    ensures
        r@ == e@,
{
    GraphEdge {
        id: e.id.clone(),
        from_node_id: e.from_node_id.clone(),
        to_node_id: e.to_node_id.clone(),
        edge_type: e.edge_type.clone(),
        confidence: e.confidence,
    }
}

/// Whether `t` is one of `lowered` (already lowercased types).
fn type_in(lowered: &Vec<Vec<char>>, t: &Vec<char>, Ghost(types): Ghost<Lines>) -> (r: bool)
    requires
        lowered.len() == types.len(),
        forall|i: int| 0 <= i < types.len() ==> (#[trigger] lowered@[i])@ == lower(types[i]),
    ensures
        r == exists|i: int| 0 <= i < types.len() && lower(#[trigger] types[i]) == t@,
{
    let mut i: usize = 0;
    while i < lowered.len()
        invariant
            i <= lowered.len(),
            lowered.len() == types.len(),
            forall|k: int| 0 <= k < types.len() ==> (#[trigger] lowered@[k])@ == lower(types[k]),
            forall|k: int| 0 <= k < i ==> lower(#[trigger] types[k]) != t@,
        decreases lowered.len() - i,
    {
        if crate::text::eq_vec(&lowered[i], t) {
            assert(lower(types[i as int]) == t@);
            return true;
        }
        i += 1;
    }
    false
}

/// Keeps the edges whose type is asked for, ignoring ASCII case; keeps
/// every edge when no type is asked for.
pub fn filtered_edges(edges: Vec<GraphEdge>, edge_types: &Vec<String>) -> (r: Vec<GraphEdge>)
    ensures
        edges_view(r@) == edges_of_types(edges_view(edges@), strings_view(edge_types@)),
{
    if edge_types.len() == 0 {
        return edges;
    }
    let ghost types = strings_view(edge_types@);
    let mut lowered: Vec<Vec<char>> = Vec::new();
    let mut k: usize = 0;
    while k < edge_types.len()
        invariant
            types == strings_view(edge_types@),
            k <= edge_types.len(),
            lowered.len() == k,
            forall|i: int| 0 <= i < k ==> (#[trigger] lowered@[i])@ == lower(types[i]),
        decreases edge_types.len() - k,
    {
        assert(types[k as int] == edge_types@[k as int]@);
        lowered.push(lower_vec(&chars_of(edge_types[k].as_str())));
        k += 1;
    }
    let ghost es = edges_view(edges@);
    let mut kept: Vec<GraphEdge> = Vec::new();
    let mut i: usize = 0;
    proof {
        reveal(Seq::filter);
        assert(es.take(0) =~= Seq::<EdgeView>::empty());
    }
    assert(edges_view(kept@) =~= es.take(0).filter(type_allowed(types)));
    while i < edges.len()
        invariant
            es == edges_view(edges@),
            types == strings_view(edge_types@),
            lowered.len() == types.len(),
            forall|j: int| 0 <= j < types.len() ==> (#[trigger] lowered@[j])@ == lower(types[j]),
            i <= edges.len(),
            edges_view(kept@) == es.take(i as int).filter(type_allowed(types)),
        decreases edges.len() - i,
    {
        proof {
            reveal(Seq::filter);
            assert(es.take(i + 1).drop_last() =~= es.take(i as int));
        }
        let e = &edges[i];
        assert(es[i as int] == e@);
        let t = lower_vec(&chars_of(e.edge_type.as_str()));
        if type_in(&lowered, &t, Ghost(types)) {
            let ghost before = edges_view(kept@);
            kept.push(clone_edge(e));
            assert(edges_view(kept@) =~= before.push(e@));
        }
        i += 1;
    }
    assert(es.take(i as int) =~= es);
    kept
}

/// Whether a walk at `node` in `direction` follows the edge.
pub open spec fn follows(e: EdgeView, node: Seq<char>, direction: GraphDirection) -> bool {
    match direction {
        GraphDirection::Inbound => e.to == node,
        GraphDirection::Outbound => e.from == node,
        GraphDirection::Both => e.to == node || e.from == node,
    }
}

/// Whether a walk at `node_id` in `direction` follows the edge: inbound
/// edges end at the node, outbound ones start there.
pub fn edge_matches_direction(edge: &GraphEdge, node_id: &str, direction: GraphDirection) -> (r: bool)
    ensures
        r == follows(edge@, node_id@, direction),
{
    match direction {
        GraphDirection::Inbound => crate::text::str_eq(edge.to_node_id.as_str(), node_id),
        GraphDirection::Outbound => crate::text::str_eq(edge.from_node_id.as_str(), node_id),
        GraphDirection::Both => crate::text::str_eq(edge.to_node_id.as_str(), node_id)
            || crate::text::str_eq(edge.from_node_id.as_str(), node_id),
    }
}

/// The smallest confidence of the edges.
pub open spec fn min_confidence(es: Seq<EdgeView>) -> nat
    decreases es.len(),
{
    if es.len() == 0 {
        0
    } else if es.len() == 1 {
        es[0].confidence as nat
    } else {
        let m = min_confidence(es.drop_last());
        if (es.last().confidence as nat) < m {
            es.last().confidence as nat
        } else {
            m
        }
    }
}

/// The sum of the confidences of the edges.
pub open spec fn confidence_sum(es: Seq<EdgeView>) -> nat
    decreases es.len(),
{
    if es.len() == 0 {
        0
    } else {
        confidence_sum(es.drop_last()) + es.last().confidence as nat
    }
}

/// `min=<smallest>; avg=<mean, rounded down>` for a path's edges; `None`
/// for no edges.
pub open spec fn confidence_text(es: Seq<EdgeView>) -> Option<Seq<char>> {
    if es.len() == 0 {
        None
    } else {
        Some(
            "min="@ + dec(min_confidence(es)) + "; avg="@ + dec(confidence_sum(es) / es.len()),
        )
    }
}

proof fn lemma_sum_bound(es: Seq<EdgeView>)
    ensures
        confidence_sum(es) <= 65535 * es.len(),
    decreases es.len(),
{
    if es.len() > 0 {
        lemma_sum_bound(es.drop_last());
    }
}

/// Summarises the confidences of a path's edges.
pub fn confidence_summary(edges: &Vec<GraphEdge>) -> (r: Option<String>)
    ensures
        match confidence_text(edges_view(edges@)) {
            Some(t) => r is Some && r->Some_0@ == t,
            None => r is None,
        },
{
    if edges.len() == 0 {
        return None;
    }
    let ghost es = edges_view(edges@);
    let mut min: u16 = edges[0].confidence;
    let mut sum: u128 = edges[0].confidence as u128;
    let mut i: usize = 1;
    assert(es.take(1).drop_last() =~= Seq::<EdgeView>::empty());
    assert(es[0] == edges@[0]@);
    assert(confidence_sum(es.take(1).drop_last()) == 0);
    assert(es.take(1).last() == es[0]);
    while i < edges.len()
        invariant
            es == edges_view(edges@),
            1 <= i <= edges.len(),
            min == min_confidence(es.take(i as int)),
            sum == confidence_sum(es.take(i as int)),
            sum <= 65535 * i,
        decreases edges.len() - i,
    {
        assert(es.take(i + 1).drop_last() =~= es.take(i as int));
        assert(es[i as int] == edges@[i as int]@);
        let c = edges[i].confidence;
        if c < min {
            min = c;
        }
        sum = sum + c as u128;
        i += 1;
    }
    assert(es.take(i as int) =~= es);
    let avg = sum / (edges.len() as u128);
    assert(avg <= 65535) by (nonlinear_arith)
        requires
            sum <= 65535 * edges.len(),
            edges.len() >= 1,
            avg == sum / (edges.len() as u128),
    ;
    let mut out: Vec<char> = Vec::new();
    push_str(&mut out, "min=");
    push_dec(&mut out, min as usize);
    push_str(&mut out, "; avg=");
    push_dec(&mut out, avg as usize);
    Some(string_from_chars(&out))
}

} // verus!
