//! The bounded neighbour graph of a seed node, walked breadth first. The
//! edges of each node come from storage, so the walk is a state machine:
//! it names the node whose edges it needs, is handed those edges, and
//! decides what to visit next.
use vstd::prelude::*;

use crate::control::graph::{
    clone_edge, edges_of_types, edges_view, filtered_edges, follows, type_allowed, EdgeView, GraphEdge,
};
use crate::control::walk::{contains_name, lemma_names_push, names};
use crate::control::GraphDirection;
use crate::line_set::{insert_sorted, strictly_sorted};
use crate::text::{chars_of, str_eq, string_from_chars, strings_view, vv, Lines};

verus! {

broadcast use vstd::string::group_string_axioms;

/// The walk's state as plain values.
pub struct WalkState {
    pub queue: Seq<(Seq<char>, u8)>,
    pub head: nat,
    pub visited: Set<Seq<char>>,
    pub node_ids: Set<Seq<char>>,
    pub edges: Seq<EdgeView>,
    pub partial: bool,
}

/// A breadth-first walk from a seed node to at most `max_depth` steps,
/// keeping at most `limit` edges.
pub struct NeighborWalk {
    queue: Vec<(String, u8)>,
    head: usize,
    visited: Vec<String>,
    node_ids: Vec<String>,
    edges: Vec<GraphEdge>,
    partial: bool,
    current: Option<(String, u8)>,
    direction: GraphDirection,
    edge_types: Vec<String>,
    max_depth: u8,
    limit: usize,
}

/// Some kept edge has this id.
pub open spec fn has_edge_id(es: Seq<EdgeView>, id: Seq<char>) -> bool {
    exists|i: int| 0 <= i < es.len() && (#[trigger] es[i]).id == id
}

/// Where the walk goes from `node` along `e`: the edge's other end.
pub open spec fn other_end(e: EdgeView, node: Seq<char>) -> Seq<char> {
    if e.from == node {
        e.to
    } else {
        e.from
    }
}

/// The state after considering edge `e` of `node` (reached at `depth`),
/// and whether the walk stops taking this node's edges: an edge the walk
/// does not follow is skipped; at the limit the walk is marked partial and
/// stops; otherwise both ends are recorded, the edge is kept unless one of
/// its id is, and an unvisited other end is queued one step deeper.
pub open spec fn take_edge(
    w: WalkState,
    e: EdgeView,
    node: Seq<char>,
    depth: u8,
    direction: GraphDirection,
    limit: nat,
) -> (WalkState, bool) {
    if !follows(e, node, direction) {
        (w, false)
    } else if w.edges.len() >= limit {
        (WalkState { partial: true, ..w }, true)
    } else {
        let next = other_end(e, node);
        let edges = if has_edge_id(w.edges, e.id) {
            w.edges
        } else {
            w.edges.push(e)
        };
        let (visited, queue) = if w.visited.contains(next) {
            (w.visited, w.queue)
        } else {
            (w.visited.insert(next), w.queue.push((next, (depth + 1) as u8)))
        };
        (
            WalkState {
                queue,
                head: w.head,
                visited,
                node_ids: w.node_ids.insert(e.from).insert(e.to),
                edges,
                partial: w.partial,
            },
            false,
        )
    }
}

/// The state after considering the edges from `i` on, until one stops the
/// node.
pub open spec fn take_edges(
    w: WalkState,
    es: Seq<EdgeView>,
    i: int,
    node: Seq<char>,
    depth: u8,
    direction: GraphDirection,
    limit: nat,
) -> WalkState
    decreases es.len() - i,
{
    if i < 0 || i >= es.len() {
        w
    } else {
        let (w2, stop) = take_edge(w, es[i], node, depth, direction, limit);
        if stop {
            w2
        } else {
            take_edges(w2, es, i + 1, node, depth, direction, limit)
        }
    }
}

/// The first queued entry at or after `i` that is shallower than
/// `max_depth`; deeper ones are passed over.
pub open spec fn next_entry(q: Seq<(Seq<char>, u8)>, i: int, max_depth: u8) -> Option<int>
    decreases q.len() - i,
{
    if i < 0 || i >= q.len() {
        None
    } else if q[i].1 < max_depth {
        Some(i)
    } else {
        next_entry(q, i + 1, max_depth)
    }
}

/// The queued entries as plain values.
pub open spec fn queue_view(q: Seq<(String, u8)>) -> Seq<(Seq<char>, u8)> {
    q.map_values(|e: (String, u8)| (e.0@, e.1))
}

/// Distinct kept edges have distinct ids.
pub open spec fn ids_distinct(es: Seq<EdgeView>) -> bool {
    forall|i: int, j: int| 0 <= i < j < es.len() ==> (#[trigger] es[i]).id != (#[trigger] es[j]).id
}

/// An edge passes the walk's type filter: any edge when no type is asked
/// for, else one whose type is asked for (ignoring ASCII case).
pub open spec fn passes_types(e: EdgeView, types: Lines) -> bool {
    types.len() == 0 || type_allowed(types)(e)
}

/// What holds of the kept edges at every step of a walk: at most `limit`
/// of them, no two with one id, each passing the type filter.
pub open spec fn edges_ok(w: WalkState, types: Lines, limit: nat) -> bool {
    &&& w.edges.len() <= limit
    &&& ids_distinct(w.edges)
    &&& forall|i: int| 0 <= i < w.edges.len() ==> passes_types(#[trigger] w.edges[i], types)
}

/// One step of a walk: the node whose edges were asked for, its depth, and
/// the edges storage handed back.
pub type WalkStep = (Seq<char>, u8, Seq<EdgeView>);

/// The state after a run of steps, each taking the node's edges of the
/// asked-for types (as `receive` does).
pub open spec fn run_walk(w: WalkState, steps: Seq<WalkStep>, direction: GraphDirection, types: Lines, limit: nat) -> WalkState
    decreases steps.len(),
{
    if steps.len() == 0 {
        w
    } else {
        let s = steps.last();
        take_edges(
            run_walk(w, steps.drop_last(), direction, types, limit),
            edges_of_types(s.2, types),
            0,
            s.0,
            s.1,
            direction,
            limit,
        )
    }
}

proof fn lemma_take_edge_ok(
    w: WalkState,
    e: EdgeView,
    node: Seq<char>,
    depth: u8,
    direction: GraphDirection,
    types: Lines,
    limit: nat,
)
    requires
        edges_ok(w, types, limit),
        passes_types(e, types),
    ensures
        edges_ok(take_edge(w, e, node, depth, direction, limit).0, types, limit),
{
    let w2 = take_edge(w, e, node, depth, direction, limit).0;
    if follows(e, node, direction) && w.edges.len() < limit && !has_edge_id(w.edges, e.id) {
        assert(w2.edges == w.edges.push(e));
        assert forall|i: int, j: int| 0 <= i < j < w2.edges.len() implies (#[trigger] w2.edges[i]).id
            != (#[trigger] w2.edges[j]).id by {
            if j == w.edges.len() {
                assert(w2.edges[i] == w.edges[i]);
            } else {
                assert(w2.edges[i] == w.edges[i] && w2.edges[j] == w.edges[j]);
            }
        }
        assert forall|i: int| 0 <= i < w2.edges.len() implies passes_types(#[trigger] w2.edges[i], types) by {
            if i < w.edges.len() {
                assert(w2.edges[i] == w.edges[i]);
            }
        }
    }
}

proof fn lemma_take_edges_ok(
    w: WalkState,
    es: Seq<EdgeView>,
    i: int,
    node: Seq<char>,
    depth: u8,
    direction: GraphDirection,
    types: Lines,
    limit: nat,
)
    requires
        edges_ok(w, types, limit),
        forall|k: int| 0 <= k < es.len() ==> passes_types(#[trigger] es[k], types),
    ensures
        edges_ok(take_edges(w, es, i, node, depth, direction, limit), types, limit),
    decreases es.len() - i,
{
    if 0 <= i < es.len() {
        lemma_take_edge_ok(w, es[i], node, depth, direction, types, limit);
        let (w2, stop) = take_edge(w, es[i], node, depth, direction, limit);
        if !stop {
            lemma_take_edges_ok(w2, es, i + 1, node, depth, direction, types, limit);
        }
    }
}

/// The edges of the asked-for types pass the type filter.
proof fn lemma_types_pass(es: Seq<EdgeView>, types: Lines)
    ensures
        forall|k: int|
            0 <= k < edges_of_types(es, types).len() ==> passes_types(#[trigger] edges_of_types(es, types)[k], types),
{
    if types.len() > 0 {
        assert forall|k: int| 0 <= k < edges_of_types(es, types).len() implies passes_types(
            #[trigger] edges_of_types(es, types)[k],
            types,
        ) by {
            es.lemma_filter_pred(type_allowed(types), k);
        }
    }
}

/// Over any run, whatever edges storage hands the walk, it keeps at most
/// `limit` edges, no two with one id, each of an asked-for type.
pub proof fn lemma_run_keeps_bounds(
    w: WalkState,
    steps: Seq<WalkStep>,
    direction: GraphDirection,
    types: Lines,
    limit: nat,
)
    requires
        edges_ok(w, types, limit),
    ensures
        edges_ok(run_walk(w, steps, direction, types, limit), types, limit),
    decreases steps.len(),
{
    if steps.len() > 0 {
        lemma_run_keeps_bounds(w, steps.drop_last(), direction, types, limit);
        let s = steps.last();
        lemma_types_pass(s.2, types);
        lemma_take_edges_ok(
            run_walk(w, steps.drop_last(), direction, types, limit),
            edges_of_types(s.2, types),
            0,
            s.0,
            s.1,
            direction,
            types,
            limit,
        );
    }
}

/// A walk starts with no edges, so every run from its start keeps the
/// bounds.
pub proof fn lemma_start_keeps_bounds(seed: Seq<char>, steps: Seq<WalkStep>, direction: GraphDirection, types: Lines, limit: nat)
    ensures
        edges_ok(
            run_walk(
                WalkState {
                    queue: seq![(seed, 0u8)],
                    head: 0,
                    visited: set![seed],
                    node_ids: set![seed],
                    edges: Seq::empty(),
                    partial: false,
                },
                steps,
                direction,
                types,
                limit,
            ),
            types,
            limit,
        ),
{
    lemma_run_keeps_bounds(
        WalkState {
            queue: seq![(seed, 0u8)],
            head: 0,
            visited: set![seed],
            node_ids: set![seed],
            edges: Seq::empty(),
            partial: false,
        },
        steps,
        direction,
        types,
        limit,
    );
}

impl NeighborWalk {
    /// The walk's state.
    pub closed spec fn state(&self) -> WalkState {
        WalkState {
            queue: queue_view(self.queue@),
            head: self.head as nat,
            visited: names(self.visited@),
            node_ids: names(self.node_ids@),
            edges: edges_view(self.edges@),
            partial: self.partial,
        }
    }

    pub closed spec fn direction(&self) -> GraphDirection {
        self.direction
    }

    pub closed spec fn types(&self) -> Lines {
        strings_view(self.edge_types@)
    }

    pub closed spec fn max_depth(&self) -> u8 {
        self.max_depth
    }

    pub closed spec fn limit(&self) -> nat {
        self.limit as nat
    }

    /// The node whose edges the walk waits for, and its depth.
    pub closed spec fn waiting(&self) -> Option<(Seq<char>, u8)> {
        match self.current {
            Some(c) => Some((c.0@, c.1)),
            None => None,
        }
    }

    /// The walk holds no more than `limit` edges, no two with one id.
    pub open spec fn bounded(&self) -> bool {
        &&& self.state().edges.len() <= self.limit()
        &&& ids_distinct(self.state().edges)
    }

    /// A well-formed walk is bounded.
    pub proof fn lemma_wf_bounded(&self)
        requires
            self.wf(),
        ensures
            self.bounded(),
    {
    }

    /// The walk keeps no more than `limit` edges, no two with one id, and
    /// queues nodes no deeper than `max_depth`.
    pub closed spec fn wf(&self) -> bool {
        &&& self.head <= self.queue@.len()
        &&& self.edges@.len() <= self.limit
        &&& ids_distinct(edges_view(self.edges@))
        &&& forall|i: int| 0 <= i < self.queue@.len() ==> (#[trigger] self.queue@[i]).1 <= self.max_depth
        &&& (self.current matches Some(c) ==> c.1 < self.max_depth)
    }

    /// A walk from `seed` in `direction` along edges of the asked-for
    /// types (all when none is asked for), to at most `max_depth` steps and
    /// `limit` edges.
    pub fn start(seed: &str, direction: GraphDirection, edge_types: Vec<String>, max_depth: u8, limit: usize) -> (r: NeighborWalk)
        ensures
            r.wf(),
            r.state() == (WalkState {
                queue: seq![(seed@, 0u8)],
                head: 0,
                visited: set![seed@],
                node_ids: set![seed@],
                edges: Seq::empty(),
                partial: false,
            }),
            r.waiting() is None,
            r.direction() == direction,
            r.types() == strings_view(edge_types@),
            r.max_depth() == max_depth,
            r.limit() == limit,
    {
        let mut visited: Vec<String> = Vec::new();
        let first = seed.to_owned();
        proof {
            lemma_names_push(visited@, first);
        }
        visited.push(first);
        let mut node_ids: Vec<String> = Vec::new();
        let second = seed.to_owned();
        proof {
            lemma_names_push(node_ids@, second);
        }
        node_ids.push(second);
        let queue = vec![(seed.to_owned(), 0u8)];
        let w = NeighborWalk {
            queue,
            head: 0,
            visited,
            node_ids,
            edges: Vec::new(),
            partial: false,
            current: None,
            direction,
            edge_types,
            max_depth,
            limit,
        };
        assert(names(w.visited@) =~= set![seed@]);
        assert(names(w.node_ids@) =~= set![seed@]);
        assert(queue_view(w.queue@) =~= seq![(seed@, 0u8)]);
        assert(edges_view(w.edges@) =~= Seq::<EdgeView>::empty());
        w
    }

    /// The next node whose edges the walk needs: the first queued node
    /// shallower than `max_depth` (deeper ones are passed over); `None`
    /// when the queue is done.
    pub fn next_request(&mut self) -> (r: Option<String>)
        requires
            old(self).wf(),
            old(self).waiting() is None,
        ensures
            final(self).wf(),
            final(self).direction() == old(self).direction(),
            final(self).types() == old(self).types(),
            final(self).max_depth() == old(self).max_depth(),
            final(self).limit() == old(self).limit(),
            match next_entry(old(self).state().queue, old(self).state().head as int, old(self).max_depth()) {
                Some(i) => {
                    &&& r is Some
                    &&& r->Some_0@ == old(self).state().queue[i].0
                    &&& final(self).waiting() == Some(old(self).state().queue[i])
                    &&& final(self).state() == (WalkState { head: (i + 1) as nat, ..old(self).state() })
                },
                None => {
                    &&& r is None
                    &&& final(self).waiting() is None
                    &&& final(self).state() == (WalkState { head: old(self).state().queue.len(), ..old(self).state() })
                },
            },
    {
        let ghost q = queue_view(self.queue@);
        let ghost h0 = self.head as int;
        while self.head < self.queue.len() && self.queue[self.head].1 >= self.max_depth
            invariant
                self.wf(),
                self.current is None,
                q == queue_view(self.queue@),
                h0 <= self.head,
                next_entry(q, h0, self.max_depth) == next_entry(q, self.head as int, self.max_depth),
                self.queue == old(self).queue,
                self.visited == old(self).visited,
                self.node_ids == old(self).node_ids,
                self.edges == old(self).edges,
                self.partial == old(self).partial,
                self.direction == old(self).direction,
                self.edge_types == old(self).edge_types,
                self.max_depth == old(self).max_depth,
                self.limit == old(self).limit,
            decreases self.queue.len() - self.head,
        {
            assert(q[self.head as int].1 == self.queue@[self.head as int].1);
            self.head = self.head + 1;
        }
        if self.head < self.queue.len() {
            let (node, depth) = (self.queue[self.head].0.clone(), self.queue[self.head].1);
            assert(q[self.head as int] == (node@, depth));
            self.current = Some((node.clone(), depth));
            self.head = self.head + 1;
            Some(node)
        } else {
            None
        }
    }

    /// Hands the walk the edges of the node it waits for. The edges of
    /// the asked-for types are taken in order (see `take_edge`), until the
    /// edge limit stops the node.
    pub fn receive(&mut self, edges: Vec<GraphEdge>)
        requires
            old(self).wf(),
            old(self).waiting() is Some,
        ensures
            final(self).wf(),
            final(self).waiting() is None,
            final(self).direction() == old(self).direction(),
            final(self).types() == old(self).types(),
            final(self).max_depth() == old(self).max_depth(),
            final(self).limit() == old(self).limit(),
            final(self).state() == take_edges(
                old(self).state(),
                edges_of_types(edges_view(edges@), old(self).types()),
                0,
                old(self).waiting()->Some_0.0,
                old(self).waiting()->Some_0.1,
                old(self).direction(),
                old(self).limit(),
            ),
    {
        let (node, depth) = match &self.current {
            Some(c) => (c.0.clone(), c.1),
            None => {
                return;
            },
        };
        self.current = None;
        let kept = filtered_edges(edges, &self.edge_types);
        let ghost es = edges_view(kept@);
        let ghost target = take_edges(self.state(), es, 0, node@, depth, self.direction, self.limit as nat);
        let mut i: usize = 0;
        let mut stopped = false;
        while i < kept.len() && !stopped
            invariant
                self.wf(),
                self.current is None,
                es == edges_view(kept@),
                depth < self.max_depth,
                i <= kept.len(),
                self.direction == old(self).direction,
                self.edge_types == old(self).edge_types,
                self.max_depth == old(self).max_depth,
                self.limit == old(self).limit,
                self.head == old(self).head,
                target == take_edges(old(self).state(), es, 0, node@, depth, self.direction, self.limit as nat),
                !stopped ==> target == take_edges(self.state(), es, i as int, node@, depth, self.direction, self.limit as nat),
                stopped ==> target == self.state(),
            decreases kept.len() - i,
        {
            let e = &kept[i];
            assert(es[i as int] == e@);
            let ghost before = self.state();
            if crate::control::graph::edge_matches_direction(e, node.as_str(), self.direction) {
                if self.edges.len() >= self.limit {
                    self.partial = true;
                    stopped = true;
                    assert(self.state() == take_edge(before, e@, node@, depth, self.direction, self.limit as nat).0);
                } else {
                    let next = if str_eq(e.from_node_id.as_str(), node.as_str()) {
                        e.to_node_id.clone()
                    } else {
                        e.from_node_id.clone()
                    };
                    let from = e.from_node_id.clone();
                    let to = e.to_node_id.clone();
                    proof {
                        lemma_names_push(self.node_ids@, from);
                        lemma_names_push(self.node_ids@.push(from), to);
                    }
                    self.node_ids.push(from);
                    self.node_ids.push(to);
                    if !has_id(&self.edges, e.id.as_str()) {
                        let ghost old_edges = edges_view(self.edges@);
                        self.edges.push(clone_edge(e));
                        assert(edges_view(self.edges@) =~= old_edges.push(e@));
                        assert(ids_distinct(edges_view(self.edges@))) by {
                            assert forall|a: int, b: int| 0 <= a < b < edges_view(self.edges@).len() implies
                                (#[trigger] edges_view(self.edges@)[a]).id != (#[trigger] edges_view(self.edges@)[b]).id by {
                                if b == old_edges.len() {
                                    assert(edges_view(self.edges@)[a] == old_edges[a]);
                                } else {
                                    assert(edges_view(self.edges@)[a] == old_edges[a]);
                                    assert(edges_view(self.edges@)[b] == old_edges[b]);
                                }
                            }
                        }
                    }
                    if !contains_name(&self.visited, next.as_str()) {
                        let ghost old_queue = queue_view(self.queue@);
                        let entry = (next.clone(), depth + 1);
                        proof {
                            lemma_names_push(self.visited@, next);
                        }
                        self.visited.push(next);
                        self.queue.push(entry);
                        assert(queue_view(self.queue@) =~= old_queue.push((entry.0@, entry.1)));
                        assert forall|k: int| 0 <= k < self.queue@.len() implies (#[trigger] self.queue@[k]).1 <= self.max_depth by {
                            if k < old_queue.len() {
                                assert(self.queue@[k].1 == old_queue[k].1);
                            }
                        }
                    }
                    assert(self.state() == take_edge(before, e@, node@, depth, self.direction, self.limit as nat).0);
                }
            }
            i += 1;
        }
    }

    /// What the walk found: the ids of the nodes it recorded, in ascending
    /// order without repeats; the edges it kept; and whether the edge limit
    /// cut it short.
    pub fn finish(self) -> (r: (Vec<String>, Vec<GraphEdge>, bool))
        ensures
            strictly_sorted(strings_view(r.0@)),
            strings_view(r.0@).to_set() == self.state().node_ids,
            edges_view(r.1@) == self.state().edges,
            r.2 == self.state().partial,
    {
        let mut sorted: Vec<Vec<char>> = Vec::new();
        let mut i: usize = 0;
        assert(vv(sorted@).to_set() =~= names(self.node_ids@.take(0)));
        while i < self.node_ids.len()
            invariant
                i <= self.node_ids.len(),
                strictly_sorted(vv(sorted@)),
                vv(sorted@).to_set() == names(self.node_ids@.take(i as int)),
            decreases self.node_ids.len() - i,
        {
            proof {
                assert(self.node_ids@.take(i + 1) =~= self.node_ids@.take(i as int).push(self.node_ids@[i as int]));
                lemma_names_push(self.node_ids@.take(i as int), self.node_ids@[i as int]);
            }
            insert_sorted(&mut sorted, chars_of(self.node_ids[i].as_str()));
            i += 1;
        }
        assert(self.node_ids@.take(i as int) =~= self.node_ids@);
        let mut ids: Vec<String> = Vec::new();
        let mut k: usize = 0;
        while k < sorted.len()
            invariant
                k <= sorted.len(),
                strings_view(ids@) == vv(sorted@).take(k as int),
            decreases sorted.len() - k,
        {
            let ghost before = strings_view(ids@);
            ids.push(string_from_chars(&sorted[k]));
            assert(strings_view(ids@) =~= before.push(sorted@[k as int]@));
            assert(vv(sorted@).take(k + 1) =~= vv(sorted@).take(k as int).push(sorted@[k as int]@));
            k += 1;
        }
        assert(vv(sorted@).take(k as int) =~= vv(sorted@));
        (ids, self.edges, self.partial)
    }
}

/// Whether a kept edge has this id.
fn has_id(edges: &Vec<GraphEdge>, id: &str) -> (r: bool)
    ensures
        r == has_edge_id(edges_view(edges@), id@),
{
    let mut i: usize = 0;
    while i < edges.len()
        invariant
            i <= edges.len(),
            forall|k: int| 0 <= k < i ==> (#[trigger] edges_view(edges@)[k]).id != id@,
        decreases edges.len() - i,
    {
        if str_eq(edges[i].id.as_str(), id) {
            assert(edges_view(edges@)[i as int].id == id@);
            return true;
        }
        i += 1;
    }
    false
}

} // verus!
