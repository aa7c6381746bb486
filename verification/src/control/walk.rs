//! Walks over the code graph: the nodes within a number of steps of a
//! node, and the shortest path of bounded length between two nodes.
use vstd::prelude::*;

use crate::control::graph::{
    clone_edge, confidence_summary, confidence_text, edges_of_types, edges_view, filtered_edges,
    EdgeView, GraphEdge,
};
use crate::text::{str_eq, strings_view};

verus! {

broadcast use vstd::string::group_string_axioms;

/// The nodes an edge leads to from a node of `from`.
pub open spec fn step(es: Seq<EdgeView>, from: Set<Seq<char>>) -> Set<Seq<char>> {
    Set::new(|t: Seq<char>| exists|j: int| 0 <= j < es.len() && from.contains(#[trigger] es[j].from) && es[j].to == t)
}

/// The nodes an edge leads to from `x`.
pub open spec fn succ(es: Seq<EdgeView>, x: Seq<char>) -> Set<Seq<char>> {
    Set::new(|t: Seq<char>| exists|j: int| 0 <= j < es.len() && #[trigger] es[j].from == x && es[j].to == t)
}

/// The nodes reached from `s` in at most `n` steps along the edges.
pub open spec fn reach(es: Seq<EdgeView>, s: Seq<char>, n: nat) -> Set<Seq<char>>
    decreases n,
{
    if n == 0 {
        set![s]
    } else {
        reach(es, s, (n - 1) as nat).union(step(es, reach(es, s, (n - 1) as nat)))
    }
}

/// `p` is a walk along edges of `es` from `s` to `t` (the empty walk when
/// `s` is `t`).
pub open spec fn is_path(es: Seq<EdgeView>, s: Seq<char>, t: Seq<char>, p: Seq<EdgeView>) -> bool {
    &&& forall|i: int| 0 <= i < p.len() ==> es.contains(#[trigger] p[i])
    &&& if p.len() == 0 {
        s == t
    } else {
        &&& p[0].from == s
        &&& p[p.len() - 1].to == t
        &&& forall|i: int| 0 <= i < p.len() - 1 ==> (#[trigger] p[i]).to == p[i + 1].from
    }
}

/// Reaching within fewer steps is reaching within more.
pub proof fn lemma_reach_mono(es: Seq<EdgeView>, s: Seq<char>, n: nat, m: nat)
    requires
        n <= m,
    ensures
        reach(es, s, n).subset_of(reach(es, s, m)),
    decreases m - n,
{
    if n < m {
        lemma_reach_mono(es, s, n, (m - 1) as nat);
    }
}

/// A walk ends at a node within as many steps as it has edges.
pub proof fn lemma_path_reach(es: Seq<EdgeView>, s: Seq<char>, t: Seq<char>, p: Seq<EdgeView>)
    requires
        is_path(es, s, t, p),
    ensures
        reach(es, s, p.len()).contains(t),
    decreases p.len(),
{
    if p.len() > 0 {
        let q = p.drop_last();
        let e = p[p.len() - 1];
        assert forall|i: int| 0 <= i < q.len() implies es.contains(#[trigger] q[i]) by {
            assert(q[i] == p[i]);
        }
        if q.len() > 0 {
            assert forall|i: int| 0 <= i < q.len() - 1 implies (#[trigger] q[i]).to == q[i + 1].from by {
                assert(q[i] == p[i]);
                assert(q[i + 1] == p[i + 1]);
            }
            assert(q[q.len() - 1] == p[p.len() - 2]);
        }
        lemma_path_reach(es, s, e.from, q);
        let j = choose|j: int| 0 <= j < es.len() && es[j] == e;
        assert(reach(es, s, q.len()).contains(es[j].from));
        assert(step(es, reach(es, s, q.len())).contains(t));
    }
}

/// A walk followed by one more edge from where it ends.
pub proof fn lemma_path_extend(es: Seq<EdgeView>, s: Seq<char>, x: Seq<char>, p: Seq<EdgeView>, j: int)
    requires
        is_path(es, s, x, p),
        0 <= j < es.len(),
        es[j].from == x,
    ensures
        is_path(es, s, es[j].to, p.push(es[j])),
{
    let q = p.push(es[j]);
    assert forall|i: int| 0 <= i < q.len() implies es.contains(#[trigger] q[i]) by {
        if i < p.len() {
            assert(q[i] == p[i]);
        } else {
            assert(q[i] == es[j]);
        }
    }
    assert forall|i: int| 0 <= i < q.len() - 1 implies (#[trigger] q[i]).to == q[i + 1].from by {
        assert(q[i] == p[i]);
        if i + 1 < p.len() {
            assert(q[i + 1] == p[i + 1]);
        }
    }
}

/// The names of a list of nodes.
pub open spec fn names(v: Seq<String>) -> Set<Seq<char>> {
    Set::new(|x: Seq<char>| exists|i: int| 0 <= i < v.len() && (#[trigger] v[i])@ == x)
}

/// The nodes of a list of walks' ends.
pub open spec fn ends(f: Seq<(String, Vec<GraphEdge>)>) -> Set<Seq<char>> {
    Set::new(|x: Seq<char>| exists|i: int| 0 <= i < f.len() && (#[trigger] f[i]).0@ == x)
}

/// Every entry is a walk of `d` edges from `s` to the entry's node.
pub open spec fn walks_of(es: Seq<EdgeView>, s: Seq<char>, f: Seq<(String, Vec<GraphEdge>)>, d: nat) -> bool {
    forall|i: int|
        0 <= i < f.len() ==> #[trigger] f[i].1@.len() == d && is_path(es, s, f[i].0@, edges_view(f[i].1@))
}

pub proof fn lemma_names_push(v: Seq<String>, x: String)
    ensures
        names(v.push(x)) == names(v).insert(x@),
{
    let w = v.push(x);
    assert forall|t: Seq<char>| names(w).contains(t) implies names(v).insert(x@).contains(t) by {
        let i = choose|i: int| 0 <= i < w.len() && (#[trigger] w[i])@ == t;
        if i < v.len() {
            assert(w[i] == v[i]);
        }
    }
    assert forall|t: Seq<char>| names(v).insert(x@).contains(t) implies names(w).contains(t) by {
        if t == x@ {
            assert(w[v.len() as int] == x);
        } else {
            let i = choose|i: int| 0 <= i < v.len() && (#[trigger] v[i])@ == t;
            assert(w[i] == v[i]);
        }
    }
    assert(names(w) =~= names(v).insert(x@));
}

proof fn lemma_ends_push(f: Seq<(String, Vec<GraphEdge>)>, x: (String, Vec<GraphEdge>))
    ensures
        ends(f.push(x)) == ends(f).insert(x.0@),
{
    let w = f.push(x);
    assert forall|t: Seq<char>| ends(w).contains(t) implies ends(f).insert(x.0@).contains(t) by {
        let i = choose|i: int| 0 <= i < w.len() && (#[trigger] w[i]).0@ == t;
        if i < f.len() {
            assert(w[i] == f[i]);
        }
    }
    assert forall|t: Seq<char>| ends(f).insert(x.0@).contains(t) implies ends(w).contains(t) by {
        if t == x.0@ {
            assert(w[f.len() as int] == x);
        } else {
            let i = choose|i: int| 0 <= i < f.len() && (#[trigger] f[i]).0@ == t;
            assert(w[i] == f[i]);
        }
    }
    assert(ends(w) =~= ends(f).insert(x.0@));
}

pub(crate) fn contains_name(v: &Vec<String>, x: &str) -> (r: bool)
    ensures
        r == names(v@).contains(x@),
{
    let mut i: usize = 0;
    while i < v.len()
        invariant
            i <= v.len(),
            forall|k: int| 0 <= k < i ==> (#[trigger] v@[k])@ != x@,
        decreases v.len() - i,
    {
        if str_eq(v[i].as_str(), x) {
            assert(v@[i as int]@ == x@);
            return true;
        }
        i += 1;
    }
    false
}

fn clone_path(p: &Vec<GraphEdge>) -> (r: Vec<GraphEdge>)
    ensures
        edges_view(r@) == edges_view(p@),
{
    let mut r: Vec<GraphEdge> = Vec::new();
    let mut i: usize = 0;
    while i < p.len()
        invariant
            i <= p.len(),
            edges_view(r@) == edges_view(p@).take(i as int),
        decreases p.len() - i,
    {
        let ghost before = edges_view(r@);
        r.push(clone_edge(&p[i]));
        assert(edges_view(r@) =~= before.push(p@[i as int]@));
        assert(edges_view(p@).take(i + 1) =~= edges_view(p@).take(i as int).push(p@[i as int]@));
        i += 1;
    }
    assert(edges_view(p@).take(i as int) =~= edges_view(p@));
    r
}

/// The nodes an edge leads to from `x`, among the first `n` edges.
pub open spec fn succ_upto(es: Seq<EdgeView>, x: Seq<char>, n: int) -> Set<Seq<char>> {
    Set::new(|t: Seq<char>| exists|j: int| 0 <= j < n && #[trigger] es[j].from == x && es[j].to == t)
}

/// Follows every edge out of `node` to a node not yet visited, marking it
/// visited and queueing the walk that reaches it.
fn expand_node(
    edges: &Vec<GraphEdge>,
    node: &String,
    path: &Vec<GraphEdge>,
    visited: &mut Vec<String>,
    next: &mut Vec<(String, Vec<GraphEdge>)>,
    Ghost(s): Ghost<Seq<char>>,
    Ghost(d): Ghost<nat>,
)
    requires
        path@.len() == d,
        is_path(edges_view(edges@), s, node@, edges_view(path@)),
        walks_of(edges_view(edges@), s, old(next)@, d + 1),
    ensures
        names(final(visited)@) == names(old(visited)@).union(succ(edges_view(edges@), node@)),
        ends(final(next)@) == ends(old(next)@).union(
            names(final(visited)@).difference(names(old(visited)@)),
        ),
        walks_of(edges_view(edges@), s, final(next)@, d + 1),
{
    let ghost es = edges_view(edges@);
    let ghost v0 = names(visited@);
    let ghost n0 = ends(next@);
    let mut j: usize = 0;
    assert(names(visited@) =~= v0.union(succ_upto(es, node@, 0)));
    assert(ends(next@) =~= n0.union(names(visited@).difference(v0)));
    while j < edges.len()
        invariant
            es == edges_view(edges@),
            j <= edges.len(),
            path@.len() == d,
            is_path(es, s, node@, edges_view(path@)),
            names(visited@) == v0.union(succ_upto(es, node@, j as int)),
            ends(next@) == n0.union(names(visited@).difference(v0)),
            walks_of(es, s, next@, d + 1),
        decreases edges.len() - j,
    {
        let e = &edges[j];
        assert(es[j as int] == e@);
        let ghost before_v = visited@;
        let ghost before_n = next@;
        if str_eq(e.from_node_id.as_str(), node.as_str()) {
            if !contains_name(visited, e.to_node_id.as_str()) {
                let name = e.to_node_id.clone();
                proof {
                    lemma_names_push(visited@, name);
                }
                visited.push(name);
                let mut p = clone_path(path);
                let ghost pv = edges_view(p@);
                p.push(clone_edge(e));
                assert(edges_view(p@) =~= pv.push(es[j as int]));
                proof {
                    lemma_path_extend(es, s, node@, edges_view(path@), j as int);
                }
                let entry = (e.to_node_id.clone(), p);
                proof {
                    lemma_ends_push(next@, entry);
                }
                next.push(entry);
                assert forall|i: int| 0 <= i < next@.len() implies #[trigger] next@[i].1@.len() == d + 1
                    && is_path(es, s, next@[i].0@, edges_view(next@[i].1@)) by {
                    if i < before_n.len() {
                        assert(next@[i] == before_n[i]);
                    }
                }
            }
        }
        assert(names(visited@) =~= v0.union(succ_upto(es, node@, j + 1))) by {
            assert forall|t: Seq<char>| succ_upto(es, node@, j + 1).contains(t) implies names(visited@).contains(t) by {
                let jj = choose|jj: int| 0 <= jj < j + 1 && #[trigger] es[jj].from == node@ && es[jj].to == t;
                if jj < j {
                    assert(succ_upto(es, node@, j as int).contains(t));
                    assert(names(before_v).contains(t));
                    let k = choose|k: int| 0 <= k < before_v.len() && (#[trigger] before_v[k])@ == t;
                    assert(visited@[k] == before_v[k]);
                } else {
                    if !names(before_v).contains(t) {
                        assert(visited@[visited@.len() - 1]@ == t);
                    } else {
                        let k = choose|k: int| 0 <= k < before_v.len() && (#[trigger] before_v[k])@ == t;
                        assert(visited@[k] == before_v[k]);
                    }
                }
            }
            assert forall|t: Seq<char>| succ_upto(es, node@, j as int).contains(t) implies succ_upto(es, node@, j + 1).contains(t) by {
                let jj = choose|jj: int| 0 <= jj < j && #[trigger] es[jj].from == node@ && es[jj].to == t;
                assert(0 <= jj < j + 1 && es[jj].from == node@ && es[jj].to == t);
            }
        }
        j += 1;
    }
    assert(succ_upto(es, node@, j as int) =~= succ(es, node@));
}

/// The nodes first reached in exactly `d` steps.
pub open spec fn layer(es: Seq<EdgeView>, s: Seq<char>, d: nat) -> Set<Seq<char>> {
    if d == 0 {
        set![s]
    } else {
        reach(es, s, d).difference(reach(es, s, (d - 1) as nat))
    }
}

pub proof fn lemma_step_union(es: Seq<EdgeView>, a: Set<Seq<char>>, b: Set<Seq<char>>)
    ensures
        step(es, a.union(b)) == step(es, a).union(step(es, b)),
{
    assert forall|t: Seq<char>| step(es, a.union(b)).contains(t) implies step(es, a).union(step(es, b)).contains(t) by {
        let j = choose|j: int| 0 <= j < es.len() && a.union(b).contains(#[trigger] es[j].from) && es[j].to == t;
        if a.contains(es[j].from) {
            assert(step(es, a).contains(t));
        } else {
            assert(step(es, b).contains(t));
        }
    }
    assert forall|t: Seq<char>| step(es, a).union(step(es, b)).contains(t) implies step(es, a.union(b)).contains(t) by {
        if step(es, a).contains(t) {
            let j = choose|j: int| 0 <= j < es.len() && a.contains(#[trigger] es[j].from) && es[j].to == t;
            assert(a.union(b).contains(es[j].from));
        } else {
            let j = choose|j: int| 0 <= j < es.len() && b.contains(#[trigger] es[j].from) && es[j].to == t;
            assert(a.union(b).contains(es[j].from));
        }
    }
    assert(step(es, a.union(b)) =~= step(es, a).union(step(es, b)));
}

pub proof fn lemma_step_insert(es: Seq<EdgeView>, a: Set<Seq<char>>, x: Seq<char>)
    ensures
        step(es, a.insert(x)) == step(es, a).union(succ(es, x)),
{
    assert forall|t: Seq<char>| step(es, a.insert(x)).contains(t) implies step(es, a).union(succ(es, x)).contains(t) by {
        let j = choose|j: int| 0 <= j < es.len() && a.insert(x).contains(#[trigger] es[j].from) && es[j].to == t;
        if a.contains(es[j].from) {
            assert(step(es, a).contains(t));
        } else {
            assert(succ(es, x).contains(t));
        }
    }
    assert forall|t: Seq<char>| step(es, a).union(succ(es, x)).contains(t) implies step(es, a.insert(x)).contains(t) by {
        if step(es, a).contains(t) {
            let j = choose|j: int| 0 <= j < es.len() && a.contains(#[trigger] es[j].from) && es[j].to == t;
            assert(a.insert(x).contains(es[j].from));
        } else {
            let j = choose|j: int| 0 <= j < es.len() && #[trigger] es[j].from == x && es[j].to == t;
            assert(a.insert(x).contains(es[j].from));
        }
    }
    assert(step(es, a.insert(x)) =~= step(es, a).union(succ(es, x)));
}

pub proof fn lemma_step_mono(es: Seq<EdgeView>, a: Set<Seq<char>>, b: Set<Seq<char>>)
    requires
        a.subset_of(b),
    ensures
        step(es, a).subset_of(step(es, b)),
{
    assert forall|t: Seq<char>| step(es, a).contains(t) implies step(es, b).contains(t) by {
        let j = choose|j: int| 0 <= j < es.len() && a.contains(#[trigger] es[j].from) && es[j].to == t;
        assert(b.contains(es[j].from));
    }
}

/// One more step from the nodes reached in `d` steps needs only the nodes
/// first reached in `d` steps.
proof fn lemma_next_layer(es: Seq<EdgeView>, s: Seq<char>, d: nat)
    ensures
        reach(es, s, d + 1) == reach(es, s, d).union(step(es, layer(es, s, d))),
        layer(es, s, d).subset_of(reach(es, s, d)),
{
    let r = reach(es, s, d);
    let l = layer(es, s, d);
    if d == 0 {
        assert(l =~= r);
    } else {
        let p = reach(es, s, (d - 1) as nat);
        assert(r =~= p.union(l));
        lemma_step_union(es, p, l);
        assert(reach(es, s, d + 1) =~= r.union(step(es, l)));
    }
}

/// The edges of a walk that may be missing.
pub open spec fn opt_path(r: Option<Vec<GraphEdge>>) -> Option<Seq<EdgeView>> {
    match r {
        Some(p) => Some(edges_view(p@)),
        None => None,
    }
}

/// `r` is a walk from `s` to `t` of at most `max_depth` edges such that
/// `t` is not reached in fewer steps; `None` when `t` is not reached
/// within `max_depth` steps.
pub open spec fn shortest_outcome(es: Seq<EdgeView>, s: Seq<char>, t: Seq<char>, max_depth: nat, r: Option<Seq<EdgeView>>) -> bool {
    match r {
        Some(p) => {
            &&& is_path(es, s, t, p)
            &&& p.len() <= max_depth
            &&& forall|n: nat| n < p.len() ==> !reach(es, s, n).contains(t)
        },
        None => !reach(es, s, max_depth).contains(t),
    }
}

/// No walk of at most `max_depth` edges from `s` to `t` is shorter than
/// the one a shortest-path search returns, and the search returns one
/// whenever such a walk exists.
pub proof fn lemma_shortest_outcome_is_shortest(
    es: Seq<EdgeView>,
    s: Seq<char>,
    t: Seq<char>,
    max_depth: nat,
    r: Option<Seq<EdgeView>>,
    q: Seq<EdgeView>,
)
    requires
        shortest_outcome(es, s, t, max_depth, r),
        is_path(es, s, t, q),
        q.len() <= max_depth,
    ensures
        r is Some,
        r->Some_0.len() <= q.len(),
{
    lemma_path_reach(es, s, t, q);
    match r {
        Some(p) => {
            if p.len() > q.len() {
                assert(!reach(es, s, q.len()).contains(t));
            }
        },
        None => {
            lemma_reach_mono(es, s, q.len(), max_depth);
        },
    }
}

/// The shortest walk of at most `max_depth` edges from `source` to
/// `target` along `edges`, found breadth first: walks of fewer edges are
/// tried before longer ones, and the edges out of a node in their order.
/// `None` when `target` is not within `max_depth` steps.
pub fn bounded_shortest_path(edges: &Vec<GraphEdge>, source: &str, target: &str, max_depth: u8) -> (r: Option<Vec<GraphEdge>>)
    ensures
        shortest_outcome(edges_view(edges@), source@, target@, max_depth as nat, opt_path(r)),
{
    let ghost es = edges_view(edges@);
    let ghost s = source@;
    let ghost t = target@;
    let start = (source.to_owned(), Vec::new());
    let mut frontier: Vec<(String, Vec<GraphEdge>)> = Vec::new();
    proof {
        lemma_ends_push(frontier@, start);
    }
    frontier.push(start);
    let mut visited: Vec<String> = Vec::new();
    let first = source.to_owned();
    proof {
        lemma_names_push(visited@, first);
    }
    visited.push(first);
    assert(names(visited@) =~= reach(es, s, 0));
    assert(ends(frontier@) =~= layer(es, s, 0));
    assert(edges_view(frontier@[0].1@) =~= Seq::<EdgeView>::empty());
    let mut depth: u8 = 0;
    loop
        invariant
            es == edges_view(edges@),
            s == source@,
            t == target@,
            depth <= max_depth,
            names(visited@) == reach(es, s, depth as nat),
            ends(frontier@) == layer(es, s, depth as nat),
            walks_of(es, s, frontier@, depth as nat),
            forall|n: nat| n < depth ==> !reach(es, s, n).contains(t),
        decreases max_depth - depth,
    {
        let mut i: usize = 0;
        while i < frontier.len()
            invariant
                i <= frontier.len(),
                t == target@,
                es == edges_view(edges@),
                s == source@,
                depth <= max_depth,
                walks_of(es, s, frontier@, depth as nat),
                forall|n: nat| n < depth ==> !reach(es, s, n).contains(t),
                forall|k: int| 0 <= k < i ==> (#[trigger] frontier@[k]).0@ != t,
            decreases frontier.len() - i,
        {
            if str_eq(frontier[i].0.as_str(), target) {
                assert(walks_of(es, s, frontier@, depth as nat));
                assert(frontier@[i as int].1@.len() == depth);
                return Some(clone_path(&frontier[i].1));
            }
            i += 1;
        }
        let ghost d = depth as nat;
        assert(!reach(es, s, d).contains(t)) by {
            if ends(frontier@).contains(t) {
                let k = choose|k: int| 0 <= k < frontier@.len() && (#[trigger] frontier@[k]).0@ == t;
            }
            if d > 0 {
                assert(!reach(es, s, (d - 1) as nat).contains(t));
            }
        }
        assert forall|n: nat| n < depth + 1 implies !reach(es, s, n).contains(t) by {
            if n < depth {
            }
        }
        if depth >= max_depth {
            return None;
        }
        let mut next: Vec<(String, Vec<GraphEdge>)> = Vec::new();
        let mut k: usize = 0;
        assert(ends(frontier@.take(0)) =~= Set::<Seq<char>>::empty());
        assert(step(es, Set::<Seq<char>>::empty()) =~= Set::<Seq<char>>::empty());
        assert(names(visited@) =~= reach(es, s, d).union(step(es, ends(frontier@.take(0)))));
        assert(ends(next@) =~= names(visited@).difference(reach(es, s, d)));
        while k < frontier.len()
            invariant
                es == edges_view(edges@),
                s == source@,
                t == target@,
                d == depth as nat,
                depth < max_depth,
                k <= frontier.len(),
                ends(frontier@) == layer(es, s, d),
                walks_of(es, s, frontier@, d),
                forall|n: nat| n < depth + 1 ==> !reach(es, s, n).contains(t),
                names(visited@) == reach(es, s, d).union(step(es, ends(frontier@.take(k as int)))),
                ends(next@) == names(visited@).difference(reach(es, s, d)),
                walks_of(es, s, next@, d + 1),
            decreases frontier.len() - k,
        {
            let ghost v_before = names(visited@);
            let ghost n_before = ends(next@);
            assert(frontier@[k as int].1@.len() == d);
            expand_node(edges, &frontier[k].0, &frontier[k].1, &mut visited, &mut next, Ghost(s), Ghost(d));
            proof {
                assert(frontier@.take(k + 1) =~= frontier@.take(k as int).push(frontier@[k as int]));
                lemma_ends_push(frontier@.take(k as int), frontier@[k as int]);
                lemma_step_insert(es, ends(frontier@.take(k as int)), frontier@[k as int].0@);
                assert(names(visited@) =~= reach(es, s, d).union(step(es, ends(frontier@.take(k + 1)))));
                assert(ends(next@) =~= names(visited@).difference(reach(es, s, d)));
            }
            k += 1;
        }
        proof {
            assert(frontier@.take(k as int) =~= frontier@);
            lemma_next_layer(es, s, d);
            assert(names(visited@) == reach(es, s, d + 1));
            assert(ends(next@) =~= layer(es, s, d + 1));
        }
        frontier = next;
        depth = depth + 1;
    }
}

/// The shortest walk from `source` to `target` of at most `max_depth`
/// edges among the edges of the asked-for types (all edges when no type
/// is asked for); `None` when there is none.
pub fn shortest_path(edges: Vec<GraphEdge>, edge_types: &Vec<String>, source: &str, target: &str, max_depth: u8) -> (r: Option<Vec<GraphEdge>>)
    ensures
        shortest_outcome(
            edges_of_types(edges_view(edges@), strings_view(edge_types@)),
            source@,
            target@,
            max_depth as nat,
            opt_path(r),
        ),
{
    let kept = filtered_edges(edges, edge_types);
    bounded_shortest_path(&kept, source, target, max_depth)
}

/// The nodes a walk from `source` passes through: `source`, then where
/// each edge leads.
pub fn path_node_ids(source: &str, path: &Vec<GraphEdge>) -> (r: Vec<String>)
    ensures
        r@.len() == path@.len() + 1,
        r@[0]@ == source@,
        forall|i: int| 0 <= i < path@.len() ==> (#[trigger] r@[i + 1])@ == path@[i].to_node_id@,
{
    let mut out: Vec<String> = Vec::new();
    out.push(source.to_owned());
    let mut i: usize = 0;
    while i < path.len()
        invariant
            i <= path.len(),
            out@.len() == i + 1,
            out@[0]@ == source@,
            forall|k: int| 0 <= k < i ==> (#[trigger] out@[k + 1])@ == path@[k].to_node_id@,
        decreases path.len() - i,
    {
        out.push(path[i].to_node_id.clone());
        i += 1;
    }
    out
}

/// What a path request answers, but for the nodes' records: whether a
/// path was found, its nodes and edges, a summary of its confidences, and
/// why nothing was found.
#[derive(Debug, Clone, PartialEq, Eq)]
pub struct GraphPathOutcome {
    pub found: bool,
    pub path_length: usize,
    pub node_ids: Vec<String>,
    pub edges: Vec<GraphEdge>,
    pub confidence_summary: Option<String>,
    pub reason: Option<String>,
}

/// The answer to a path request over the edges read: the shortest walk
/// from `source` to `target` of at most `max_depth` edges of the
/// asked-for types, or the reason none was found.
pub fn graph_path_outcome(edges: Vec<GraphEdge>, edge_types: &Vec<String>, source: &str, target: &str, max_depth: u8) -> (r: GraphPathOutcome)
    ensures
        ({
            let es = edges_of_types(edges_view(edges@), strings_view(edge_types@));
            &&& r.found ==> shortest_outcome(es, source@, target@, max_depth as nat, Some(edges_view(r.edges@)))
            &&& !r.found ==> shortest_outcome(es, source@, target@, max_depth as nat, None)
            &&& r.found ==> {
                &&& r.path_length == r.edges@.len()
                &&& r.node_ids@.len() == r.edges@.len() + 1
                &&& r.node_ids@[0]@ == source@
                &&& forall|i: int| 0 <= i < r.edges@.len() ==> (#[trigger] r.node_ids@[i + 1])@ == r.edges@[i].to_node_id@
                &&& match confidence_text(edges_view(r.edges@)) {
                    Some(t) => r.confidence_summary is Some && r.confidence_summary->Some_0@ == t,
                    None => r.confidence_summary is None,
                }
                &&& r.reason is None
            }
            &&& !r.found ==> {
                &&& r.path_length == 0
                &&& r.node_ids@.len() == 0
                &&& r.edges@.len() == 0
                &&& r.confidence_summary is None
                &&& r.reason is Some
                &&& r.reason->Some_0@ == "no bounded path found"@
            }
        }),
{
    match shortest_path(edges, edge_types, source, target, max_depth) {
        Some(path) => {
            let node_ids = path_node_ids(source, &path);
            let summary = confidence_summary(&path);
            GraphPathOutcome {
                found: true,
                path_length: path.len(),
                node_ids,
                edges: path,
                confidence_summary: summary,
                reason: None,
            }
        },
        None => GraphPathOutcome {
            found: false,
            path_length: 0,
            node_ids: Vec::new(),
            edges: Vec::new(),
            confidence_summary: None,
            reason: Some("no bounded path found".to_owned()),
        },
    }
}

} // verus!
