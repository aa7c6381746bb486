//! Groups of code graph nodes that reach one another along the graph's
//! edges: the dependency cycles a project has, with the edge types inside
//! each cycle.
use vstd::prelude::*;

use crate::control::graph::{edges_of_types, edges_view, filtered_edges, EdgeView, GraphEdge};
use crate::control::walk::{contains_name, lemma_names_push, lemma_reach_mono, lemma_step_mono, names, reach, step, succ};
use crate::line_set::{insert_sorted, strictly_sorted};
use crate::text::{chars_of, str_eq, string_from_chars, strings_view, vv};

verus! {

broadcast use vstd::string::group_string_axioms;

/// `b` is reached from `a` in some number of steps.
pub open spec fn reaches(es: Seq<EdgeView>, a: Seq<char>, b: Seq<char>) -> bool {
    exists|n: nat| #[trigger] reach(es, a, n).contains(b)
}

/// The edges whose end is not among `v`.
pub open spec fn unvisited_ends(es: Seq<EdgeView>, v: Set<Seq<char>>) -> nat
    decreases es.len(),
{
    if es.len() == 0 {
        0
    } else {
        unvisited_ends(es.drop_last(), v) + if v.contains(es.last().to) {
            0nat
        } else {
            1nat
        }
    }
}

/// Reaching more ends leaves no more edges unvisited_ends, and fewer when an
/// edge's end is newly reached.
proof fn lemma_unreached_mono(es: Seq<EdgeView>, a: Set<Seq<char>>, b: Set<Seq<char>>, j: int)
    requires
        a.subset_of(b),
    ensures
        unvisited_ends(es, b) <= unvisited_ends(es, a),
        0 <= j < es.len() && b.contains(es[j].to) && !a.contains(es[j].to) ==> unvisited_ends(es, b) < unvisited_ends(es, a),
    decreases es.len(),
{
    if es.len() > 0 {
        let k = if j < es.len() - 1 {
            j
        } else {
            -1
        };
        lemma_unreached_mono(es.drop_last(), a, b, k);
        if 0 <= j < es.len() - 1 {
            assert(es.drop_last()[j] == es[j]);
        }
    }
}

/// When one step adds nothing, no number of steps does.
proof fn lemma_fixpoint(es: Seq<EdgeView>, s: Seq<char>, d: nat, m: nat)
    requires
        reach(es, s, d + 1) == reach(es, s, d),
    ensures
        reach(es, s, m).subset_of(reach(es, s, d)),
    decreases m,
{
    if m <= d {
        lemma_reach_mono(es, s, m, d);
    } else {
        lemma_fixpoint(es, s, d, (m - 1) as nat);
        lemma_step_mono(es, reach(es, s, (m - 1) as nat), reach(es, s, d));
    }
}

/// No name is listed twice.
pub open spec fn distinct_names(v: Seq<String>) -> bool {
    forall|i: int, j: int| 0 <= i < j < v.len() ==> (#[trigger] v[i])@ != (#[trigger] v[j])@
}

/// Adds the nodes an edge leads to from `node` that are not listed yet.
fn add_successors(edges: &Vec<GraphEdge>, node: &String, visited: &mut Vec<String>)
    requires
        distinct_names(old(visited)@),
    ensures
        distinct_names(final(visited)@),
        names(final(visited)@) == names(old(visited)@).union(succ(edges_view(edges@), node@)),
        final(visited)@.len() >= old(visited)@.len(),
        final(visited)@.take(old(visited)@.len() as int) == old(visited)@,
{
    let ghost es = edges_view(edges@);
    let ghost v0 = visited@;
    let mut j: usize = 0;
    assert(visited@.take(v0.len() as int) =~= v0);
    assert(names(visited@) =~= names(v0).union(crate::control::walk::succ_upto(es, node@, 0)));
    while j < edges.len()
        invariant
            es == edges_view(edges@),
            j <= edges.len(),
            visited@.len() >= v0.len(),
            visited@.take(v0.len() as int) == v0,
            distinct_names(visited@),
            names(visited@) == names(v0).union(crate::control::walk::succ_upto(es, node@, j as int)),
        decreases edges.len() - j,
    {
        let e = &edges[j];
        assert(es[j as int] == e@);
        let ghost before = visited@;
        let ghost mut pushed = false;
        if str_eq(e.from_node_id.as_str(), node.as_str()) && !contains_name(visited, e.to_node_id.as_str()) {
            proof {
                pushed = true;
            }
            let name = e.to_node_id.clone();
            proof {
                lemma_names_push(visited@, name);
            }
            visited.push(name);
            assert(visited@.take(v0.len() as int) =~= before.take(v0.len() as int));
            assert forall|a: int, b: int| 0 <= a < b < visited@.len() implies (#[trigger] visited@[a])@ != (#[trigger] visited@[b])@ by {
                if b == visited@.len() - 1 {
                    assert(visited@[a] == before[a]);
                    assert(names(before).contains(before[a]@));
                } else {
                    assert(visited@[a] == before[a]);
                    assert(visited@[b] == before[b]);
                }
            }
        }
        assert(names(visited@) =~= names(v0).union(crate::control::walk::succ_upto(es, node@, j + 1))) by {
            assert forall|t: Seq<char>| crate::control::walk::succ_upto(es, node@, j + 1).contains(t) implies names(visited@).contains(t) by {
                let jj = choose|jj: int| 0 <= jj < j + 1 && #[trigger] es[jj].from == node@ && es[jj].to == t;
                if jj < j {
                    assert(crate::control::walk::succ_upto(es, node@, j as int).contains(t));
                }
                if names(before).contains(t) {
                    let k = choose|k: int| 0 <= k < before.len() && (#[trigger] before[k])@ == t;
                    assert(visited@[k] == before[k]);
                } else {
                    assert(visited@[visited@.len() - 1]@ == t);
                }
            }
            assert forall|t: Seq<char>| names(visited@).contains(t) implies names(v0).union(crate::control::walk::succ_upto(es, node@, j + 1)).contains(t) by {
                if !names(before).contains(t) {
                    if !pushed {
                        assert(visited@ == before);
                    }
                    assert(visited@.len() == before.len() + 1);
                    let k = choose|k: int| 0 <= k < visited@.len() && (#[trigger] visited@[k])@ == t;
                    if k < before.len() {
                        assert(visited@[k] == before[k]);
                    }
                    assert(t == es[j as int].to && es[j as int].from == node@);
                    assert(crate::control::walk::succ_upto(es, node@, j + 1).contains(t));
                } else {
                    if crate::control::walk::succ_upto(es, node@, j as int).contains(t) {
                        let jj = choose|jj: int| 0 <= jj < j && #[trigger] es[jj].from == node@ && es[jj].to == t;
                        assert(0 <= jj < j + 1 && es[jj].from == node@ && es[jj].to == t);
                    }
                }
            }
        }
        j += 1;
    }
    assert(crate::control::walk::succ_upto(es, node@, j as int) =~= succ(es, node@));
}

/// The nodes reached from `start` along the edges, `start` included.
pub fn reachable_from(edges: &Vec<GraphEdge>, start: &String) -> (r: Vec<String>)
    ensures
        forall|u: Seq<char>| #[trigger] names(r@).contains(u) <==> reaches(edges_view(edges@), start@, u),
{
    let ghost es = edges_view(edges@);
    let ghost s = start@;
    let mut visited: Vec<String> = Vec::new();
    let first = start.clone();
    proof {
        lemma_names_push(visited@, first);
    }
    visited.push(first);
    assert(names(visited@) =~= reach(es, s, 0));
    let ghost mut d: nat = 0;
    loop
        invariant
            es == edges_view(edges@),
            s == start@,
            distinct_names(visited@),
            names(visited@) == reach(es, s, d),
        decreases unvisited_ends(es, names(visited@)),
    {
        let before = visited.len();
        let ghost old_visited = visited@;
        let mut k: usize = 0;
        assert(names(visited@) =~= names(old_visited).union(step(es, names(old_visited.take(0)))));
        while k < before
            invariant
                es == edges_view(edges@),
                k <= before,
                before == old_visited.len(),
                visited@.len() >= before,
                visited@.take(before as int) == old_visited,
                distinct_names(visited@),
                names(visited@) == names(old_visited).union(step(es, names(old_visited.take(k as int)))),
            decreases before - k,
        {
            let ghost prev = visited@;
            assert(visited@[k as int] == old_visited[k as int]) by {
                assert(visited@.take(before as int)[k as int] == visited@[k as int]);
            }
            let node = visited[k].clone();
            add_successors(edges, &node, &mut visited);
            proof {
                assert(visited@.take(before as int) =~= prev.take(before as int)) by {
                    assert(visited@.take(prev.len() as int) == prev);
                    assert forall|i: int| 0 <= i < before implies visited@[i] == prev[i] by {
                        assert(visited@.take(prev.len() as int)[i] == visited@[i]);
                    }
                }
                assert(old_visited.take(k + 1) =~= old_visited.take(k as int).push(old_visited[k as int]));
                lemma_names_push(old_visited.take(k as int), old_visited[k as int]);
                crate::control::walk::lemma_step_insert(es, names(old_visited.take(k as int)), node@);
            }
            k += 1;
        }
        assert(old_visited.take(before as int) =~= old_visited);
        assert(names(visited@) == reach(es, s, d + 1));
        if visited.len() == before {
            assert(visited@ =~= old_visited) by {
                assert(visited@.take(before as int) == old_visited);
                assert(visited@.take(before as int) =~= visited@);
            }
            proof {
                assert forall|u: Seq<char>| #[trigger] names(visited@).contains(u) <==> reaches(es, s, u) by {
                    if reaches(es, s, u) {
                        let n = choose|n: nat| #[trigger] reach(es, s, n).contains(u);
                        lemma_fixpoint(es, s, d, n);
                    }
                }
            }
            return visited;
        }
        proof {
            let u = visited@[before as int]@;
            assert(names(visited@).contains(u));
            assert(!names(old_visited).contains(u)) by {
                if names(old_visited).contains(u) {
                    let i = choose|i: int| 0 <= i < old_visited.len() && (#[trigger] old_visited[i])@ == u;
                    assert(visited@.take(before as int)[i] == visited@[i]);
                }
            }
            assert(step(es, reach(es, s, d)).contains(u));
            let j = choose|j: int| 0 <= j < es.len() && reach(es, s, d).contains(#[trigger] es[j].from) && es[j].to == u;
            lemma_unreached_mono(es, names(old_visited), names(visited@), j);
        }
        proof {
            d = d + 1;
        }
    }
}

/// Every node an edge starts or ends at.
pub open spec fn graph_nodes(es: Seq<EdgeView>) -> Set<Seq<char>> {
    Set::new(|x: Seq<char>| exists|j: int| 0 <= j < es.len() && (#[trigger] es[j].from == x || es[j].to == x))
}

/// The nodes of the graph that `a` reaches and that reach `a`.
pub open spec fn component(es: Seq<EdgeView>, a: Seq<char>) -> Set<Seq<char>> {
    Set::new(|u: Seq<char>| graph_nodes(es).contains(u) && reaches(es, a, u) && reaches(es, u, a))
}

/// The types of the edges that start and end among `c`.
pub open spec fn internal_types(es: Seq<EdgeView>, c: Set<Seq<char>>) -> Set<Seq<char>> {
    Set::new(|t: Seq<char>| exists|j: int| 0 <= j < es.len() && c.contains(#[trigger] es[j].from) && c.contains(es[j].to) && es[j].edge_type == t)
}

/// Steps compose: what `b` reaches in `m` steps, `a` reaches in `n + m`
/// when it reaches `b` in `n`.
pub proof fn lemma_reach_trans(es: Seq<EdgeView>, a: Seq<char>, b: Seq<char>, c: Seq<char>, n: nat, m: nat)
    requires
        reach(es, a, n).contains(b),
        reach(es, b, m).contains(c),
    ensures
        reach(es, a, n + m).contains(c),
    decreases m,
{
    if m > 0 {
        let p = (m - 1) as nat;
        if reach(es, b, p).contains(c) {
            lemma_reach_trans(es, a, b, c, n, p);
            lemma_reach_mono(es, a, n + p, n + m);
        } else {
            let j = choose|j: int| 0 <= j < es.len() && reach(es, b, p).contains(#[trigger] es[j].from) && es[j].to == c;
            lemma_reach_trans(es, a, b, es[j].from, n, p);
            assert(step(es, reach(es, a, n + p)).contains(c));
            assert(reach(es, a, n + m) == reach(es, a, ((n + m) - 1) as nat).union(step(es, reach(es, a, ((n + m) - 1) as nat))));
        }
    }
}

pub proof fn lemma_reaches_trans(es: Seq<EdgeView>, a: Seq<char>, b: Seq<char>, c: Seq<char>)
    requires
        reaches(es, a, b),
        reaches(es, b, c),
    ensures
        reaches(es, a, c),
{
    let n = choose|n: nat| #[trigger] reach(es, a, n).contains(b);
    let m = choose|m: nat| #[trigger] reach(es, b, m).contains(c);
    lemma_reach_trans(es, a, b, c, n, m);
}

/// Nodes that reach one another have the same component.
pub proof fn lemma_component_same(es: Seq<EdgeView>, x: Seq<char>, y: Seq<char>)
    requires
        component(es, x).contains(y),
    ensures
        component(es, x) == component(es, y),
{
    assert forall|u: Seq<char>| component(es, x).contains(u) implies component(es, y).contains(u) by {
        lemma_reaches_trans(es, y, x, u);
        lemma_reaches_trans(es, u, x, y);
    }
    assert forall|u: Seq<char>| component(es, y).contains(u) implies component(es, x).contains(u) by {
        lemma_reaches_trans(es, x, y, u);
        lemma_reaches_trans(es, u, y, x);
    }
    assert(component(es, x) =~= component(es, y));
}

/// A node of the graph is in its own component.
pub proof fn lemma_component_self(es: Seq<EdgeView>, x: Seq<char>)
    requires
        graph_nodes(es).contains(x),
    ensures
        component(es, x).contains(x),
{
    assert(reach(es, x, 0).contains(x));
}

/// The distinct nodes of the edges, in the order they first occur.
fn node_list(edges: &Vec<GraphEdge>) -> (r: Vec<String>)
    ensures
        names(r@) == graph_nodes(edges_view(edges@)),
        distinct_names(r@),
{
    let ghost es = edges_view(edges@);
    let mut out: Vec<String> = Vec::new();
    let mut j: usize = 0;
    assert(names(out@) =~= graph_nodes(es.take(0)));
    while j < edges.len()
        invariant
            es == edges_view(edges@),
            j <= edges.len(),
            distinct_names(out@),
            names(out@) == graph_nodes(es.take(j as int)),
        decreases edges.len() - j,
    {
        assert(es[j as int] == edges@[j as int]@);
        let ghost before = out@;
        push_new(&mut out, &edges[j].from_node_id);
        push_new(&mut out, &edges[j].to_node_id);
        assert(names(out@) =~= graph_nodes(es.take(j + 1))) by {
            assert forall|x: Seq<char>| graph_nodes(es.take(j + 1)).contains(x) implies names(out@).contains(x) by {
                let i = choose|i: int| 0 <= i < es.take(j + 1).len() && (#[trigger] es.take(j + 1)[i].from == x || es.take(j + 1)[i].to == x);
                if i < j {
                    assert(es.take(j as int)[i] == es.take(j + 1)[i]);
                    assert(graph_nodes(es.take(j as int)).contains(x));
                }
            }
            assert forall|x: Seq<char>| names(out@).contains(x) implies graph_nodes(es.take(j + 1)).contains(x) by {
                if names(before).contains(x) {
                    let i = choose|i: int| 0 <= i < es.take(j as int).len() && (#[trigger] es.take(j as int)[i].from == x || es.take(j as int)[i].to == x);
                    assert(es.take(j as int)[i] == es.take(j + 1)[i]);
                } else {
                    assert(names(out@) == names(before).insert(es[j as int].from).insert(es[j as int].to));
                    assert(es.take(j + 1)[j as int] == es[j as int]);
                    assert(x == es[j as int].from || x == es[j as int].to);
                    assert(es.take(j + 1)[j as int].from == x || es.take(j + 1)[j as int].to == x);
                }
            }
        }
        j += 1;
    }
    assert(es.take(j as int) =~= es);
    out
}

/// Adds `x` to a list of distinct names unless it is there.
fn push_new(out: &mut Vec<String>, x: &String)
    requires
        distinct_names(old(out)@),
    ensures
        distinct_names(final(out)@),
        names(final(out)@) == names(old(out)@).insert(x@),
{
    if !contains_name(out, x.as_str()) {
        let ghost before = out@;
        let name = x.clone();
        proof {
            lemma_names_push(out@, name);
        }
        out.push(name);
        assert forall|a: int, b: int| 0 <= a < b < out@.len() implies (#[trigger] out@[a])@ != (#[trigger] out@[b])@ by {
            assert(out@[a] == before[a]);
            if b < before.len() {
                assert(out@[b] == before[b]);
            } else {
                assert(names(before).contains(before[a]@));
            }
        }
    } else {
        assert(names(out@) =~= names(out@).insert(x@));
    }
}

/// Each list holds the nodes its node reaches.
pub open spec fn closures_of(es: Seq<EdgeView>, nodes: Seq<String>, closures: Seq<Vec<String>>) -> bool {
    &&& closures.len() == nodes.len()
    &&& forall|i: int, u: Seq<char>|
        0 <= i < nodes.len() ==> (#[trigger] names(closures[i]@).contains(u) <==> reaches(es, nodes[i]@, u))
}

/// The members of the component of `nodes[k]`, as listed and in
/// ascending order; each is also added to `assigned`.
fn component_members(
    nodes: &Vec<String>,
    closures: &Vec<Vec<String>>,
    k: usize,
    assigned: &mut Vec<String>,
    Ghost(es): Ghost<Seq<EdgeView>>,
) -> (r: Vec<Vec<char>>)
    requires
        names(nodes@) == graph_nodes(es),
        closures_of(es, nodes@, closures@),
        k < nodes@.len(),
    ensures
        strictly_sorted(vv(r@)),
        vv(r@).to_set() == component(es, nodes@[k as int]@),
        names(final(assigned)@) == names(old(assigned)@).union(component(es, nodes@[k as int]@)),
{
    let ghost v = nodes@[k as int]@;
    let ghost a0 = names(assigned@);
    let mut sorted: Vec<Vec<char>> = Vec::new();
    let mut i: usize = 0;
    assert(nodes@.take(0) =~= Seq::<String>::empty());
    assert(names(nodes@.take(0)) =~= Set::<Seq<char>>::empty());
    assert(vv(sorted@).to_set() =~= component(es, v).intersect(names(nodes@.take(0))));
    assert(names(assigned@) =~= a0.union(component(es, v).intersect(names(nodes@.take(0)))));
    while i < nodes.len()
        invariant
            names(nodes@) == graph_nodes(es),
            closures_of(es, nodes@, closures@),
            k < nodes@.len(),
            v == nodes@[k as int]@,
            i <= nodes.len(),
            strictly_sorted(vv(sorted@)),
            vv(sorted@).to_set() == component(es, v).intersect(names(nodes@.take(i as int))),
            names(assigned@) == a0.union(component(es, v).intersect(names(nodes@.take(i as int)))),
        decreases nodes.len() - i,
    {
        let u = &nodes[i];
        proof {
            assert(nodes@.take(i + 1) =~= nodes@.take(i as int).push(nodes@[i as int]));
            lemma_names_push(nodes@.take(i as int), nodes@[i as int]);
            assert(names(nodes@).contains(u@));
        }
        let ghost before_sorted = vv(sorted@).to_set();
        let ghost before_assigned = names(assigned@);
        if contains_name(&closures[k], u.as_str()) && contains_name(&closures[i], nodes[k].as_str()) {
            assert(names(closures@[k as int]@).contains(u@));
            assert(names(closures@[i as int]@).contains(v));
            assert(component(es, v).contains(u@));
            insert_sorted(&mut sorted, chars_of(u.as_str()));
            let name = u.clone();
            proof {
                lemma_names_push(assigned@, name);
            }
            assigned.push(name);
            assert(vv(sorted@).to_set() =~= component(es, v).intersect(names(nodes@.take(i + 1))));
            assert(names(assigned@) =~= a0.union(component(es, v).intersect(names(nodes@.take(i + 1)))));
        } else {
            assert(!component(es, v).contains(u@)) by {
                if component(es, v).contains(u@) {
                    assert(names(closures@[k as int]@).contains(u@));
                    assert(names(closures@[i as int]@).contains(v));
                }
            }
            assert(vv(sorted@).to_set() =~= component(es, v).intersect(names(nodes@.take(i + 1))));
            assert(names(assigned@) =~= a0.union(component(es, v).intersect(names(nodes@.take(i + 1)))));
        }
        i += 1;
    }
    proof {
        assert(nodes@.take(i as int) =~= nodes@);
        assert(component(es, v).intersect(names(nodes@)) =~= component(es, v));
    }
    sorted
}

/// The types of the edges that start and end among `members`, in
/// ascending order without repeats.
fn internal_edge_types(edges: &Vec<GraphEdge>, members: &Vec<String>) -> (r: Vec<Vec<char>>)
    ensures
        strictly_sorted(vv(r@)),
        vv(r@).to_set() == internal_types(edges_view(edges@), names(members@)),
{
    let ghost es = edges_view(edges@);
    let ghost c = names(members@);
    let mut types: Vec<Vec<char>> = Vec::new();
    let mut j: usize = 0;
    assert(vv(types@).to_set() =~= internal_types(es.take(0), c));
    while j < edges.len()
        invariant
            es == edges_view(edges@),
            c == names(members@),
            j <= edges.len(),
            strictly_sorted(vv(types@)),
            vv(types@).to_set() == internal_types(es.take(j as int), c),
        decreases edges.len() - j,
    {
        let e = &edges[j];
        assert(es[j as int] == e@);
        let ghost before = vv(types@).to_set();
        let inside = contains_name(members, e.from_node_id.as_str()) && contains_name(members, e.to_node_id.as_str());
        if inside {
            insert_sorted(&mut types, chars_of(e.edge_type.as_str()));
        }
        assert(vv(types@).to_set() =~= internal_types(es.take(j + 1), c)) by {
            assert forall|t: Seq<char>| internal_types(es.take(j + 1), c).contains(t) implies vv(types@).to_set().contains(t) by {
                let i = choose|i: int| 0 <= i < es.take(j + 1).len() && c.contains(#[trigger] es.take(j + 1)[i].from) && c.contains(es.take(j + 1)[i].to) && es.take(j + 1)[i].edge_type == t;
                if i < j {
                    assert(es.take(j as int)[i] == es.take(j + 1)[i]);
                    assert(internal_types(es.take(j as int), c).contains(t));
                }
            }
            assert forall|t: Seq<char>| vv(types@).to_set().contains(t) implies internal_types(es.take(j + 1), c).contains(t) by {
                if before.contains(t) {
                    let i = choose|i: int| 0 <= i < es.take(j as int).len() && c.contains(#[trigger] es.take(j as int)[i].from) && c.contains(es.take(j as int)[i].to) && es.take(j as int)[i].edge_type == t;
                    assert(es.take(j as int)[i] == es.take(j + 1)[i]);
                } else {
                    assert(inside);
                    assert(t == es[j as int].edge_type);
                    assert(es.take(j + 1)[j as int] == es[j as int]);
                    assert(c.contains(es.take(j + 1)[j as int].from) && c.contains(es.take(j + 1)[j as int].to));
                }
            }
        }
        j += 1;
    }
    assert(es.take(j as int) =~= es);
    types
}

/// The strings of character lists.
fn to_strings(v: &Vec<Vec<char>>) -> (r: Vec<String>)
    ensures
        strings_view(r@) == vv(v@),
{
    let mut out: Vec<String> = Vec::new();
    let mut i: usize = 0;
    while i < v.len()
        invariant
            i <= v.len(),
            strings_view(out@) == vv(v@).take(i as int),
        decreases v.len() - i,
    {
        let ghost before = strings_view(out@);
        out.push(string_from_chars(&v[i]));
        assert(strings_view(out@) =~= before.push(v@[i as int]@));
        assert(vv(v@).take(i + 1) =~= vv(v@).take(i as int).push(v@[i as int]@));
        i += 1;
    }
    assert(vv(v@).take(i as int) =~= vv(v@));
    out
}

/// A group of nodes that reach one another, with the types of the edges
/// among them.
#[derive(Debug, Clone, PartialEq, Eq)]
pub struct SccGroup {
    pub node_ids: Vec<String>,
    pub edge_types: Vec<String>,
}

/// The nodes of a group.
pub open spec fn group_nodes(g: SccGroup) -> Set<Seq<char>> {
    strings_view(g.node_ids@).to_set()
}

/// `g` lists, in ascending order, a component of more than one node, and
/// in ascending order without repeats the types of the edges inside it.
pub open spec fn is_cycle_group(es: Seq<EdgeView>, g: SccGroup) -> bool {
    let ns = strings_view(g.node_ids@);
    &&& ns.len() > 1
    &&& strictly_sorted(ns)
    &&& group_nodes(g) == component(es, ns[0])
    &&& strictly_sorted(strings_view(g.edge_types@))
    &&& strings_view(g.edge_types@).to_set() == internal_types(es, component(es, ns[0]))
}

/// `x` reaches, and is reached from, a node other than itself.
pub open spec fn on_cycle(es: Seq<EdgeView>, x: Seq<char>) -> bool {
    &&& graph_nodes(es).contains(x)
    &&& exists|y: Seq<char>| y != x && #[trigger] component(es, x).contains(y)
}

/// The groups are cycle groups, no two share a node, and every node on a
/// cycle is in one.
pub open spec fn cycle_cover(es: Seq<EdgeView>, gs: Seq<SccGroup>) -> bool {
    &&& forall|i: int| 0 <= i < gs.len() ==> is_cycle_group(es, #[trigger] gs[i])
    &&& forall|i: int, j: int, x: Seq<char>|
        0 <= i < j < gs.len() ==> !(#[trigger] group_nodes(gs[i]).contains(x) && #[trigger] group_nodes(gs[j]).contains(x))
    &&& forall|x: Seq<char>| on_cycle(es, x) ==> exists|i: int| 0 <= i < gs.len() && #[trigger] group_nodes(gs[i]).contains(x)
}

/// The nodes of the components of the first `k` nodes.
pub open spec fn covered(es: Seq<EdgeView>, nodes: Seq<String>, k: int) -> Set<Seq<char>> {
    Set::new(|x: Seq<char>| exists|i: int| 0 <= i < k && #[trigger] component(es, nodes[i]@).contains(x))
}

/// The dependency cycles among the edges: each group of two or more
/// nodes that reach one another, its nodes and its edges' types each in
/// ascending order.
pub fn cycle_groups(edges: &Vec<GraphEdge>) -> (r: Vec<SccGroup>)
    ensures
        cycle_cover(edges_view(edges@), r@),
{
    let ghost es = edges_view(edges@);
    let nodes = node_list(edges);
    let mut closures: Vec<Vec<String>> = Vec::new();
    let mut c: usize = 0;
    while c < nodes.len()
        invariant
            es == edges_view(edges@),
            c <= nodes.len(),
            closures@.len() == c,
            forall|i: int, u: Seq<char>|
                0 <= i < c ==> (#[trigger] names(closures@[i]@).contains(u) <==> reaches(es, nodes@[i]@, u)),
        decreases nodes.len() - c,
    {
        let reached = reachable_from(edges, &nodes[c]);
        closures.push(reached);
        assert forall|i: int, u: Seq<char>|
            0 <= i < c + 1 implies (#[trigger] names(closures@[i]@).contains(u) <==> reaches(es, nodes@[i]@, u)) by {
            if i == c {
                assert(names(closures@[i]@).contains(u) == names(reached@).contains(u));
            }
        }
        c += 1;
    }
    let mut assigned: Vec<String> = Vec::new();
    let mut groups: Vec<SccGroup> = Vec::new();
    let mut k: usize = 0;
    assert(names(assigned@) =~= covered(es, nodes@, 0));
    while k < nodes.len()
        invariant
            es == edges_view(edges@),
            names(nodes@) == graph_nodes(es),
            closures_of(es, nodes@, closures@),
            k <= nodes.len(),
            names(assigned@) == covered(es, nodes@, k as int),
            forall|i: int| 0 <= i < groups@.len() ==> is_cycle_group(es, #[trigger] groups@[i]),
            forall|i: int| 0 <= i < groups@.len() ==> (#[trigger] group_nodes(groups@[i])).subset_of(names(assigned@)),
            forall|i: int, j: int, x: Seq<char>|
                0 <= i < j < groups@.len() ==> !(#[trigger] group_nodes(groups@[i]).contains(x) && #[trigger] group_nodes(groups@[j]).contains(x)),
            forall|x: Seq<char>| #[trigger] covered(es, nodes@, k as int).contains(x) && on_cycle(es, x) ==> exists|i: int|
                0 <= i < groups@.len() && #[trigger] group_nodes(groups@[i]).contains(x),
        decreases nodes.len() - k,
    {
        let ghost v = nodes@[k as int]@;
        proof {
            assert(names(nodes@).contains(v));
            lemma_component_self(es, v);
        }
        let ghost before_groups = groups@;
        let ghost before_assigned = names(assigned@);
        if contains_name(&assigned, nodes[k].as_str()) {
            proof {
                let i0 = choose|i: int| 0 <= i < k && #[trigger] component(es, nodes@[i]@).contains(v);
                lemma_component_same(es, nodes@[i0]@, v);
                assert(covered(es, nodes@, k + 1) =~= covered(es, nodes@, k as int)) by {
                    assert forall|x: Seq<char>| covered(es, nodes@, k + 1).contains(x) implies covered(es, nodes@, k as int).contains(x) by {
                        let i = choose|i: int| 0 <= i < k + 1 && #[trigger] component(es, nodes@[i]@).contains(x);
                        if i == k {
                            assert(component(es, nodes@[i0]@).contains(x));
                        }
                    }
                }
            }
        } else {
            let sorted = component_members(&nodes, &closures, k, &mut assigned, Ghost(es));
            let ghost comp = component(es, v);
            proof {
                assert(names(assigned@) =~= covered(es, nodes@, k + 1)) by {
                    assert forall|x: Seq<char>| covered(es, nodes@, k + 1).contains(x) implies names(assigned@).contains(x) by {
                        let i = choose|i: int| 0 <= i < k + 1 && #[trigger] component(es, nodes@[i]@).contains(x);
                        if i < k {
                            assert(covered(es, nodes@, k as int).contains(x));
                        }
                    }
                    assert forall|x: Seq<char>| names(assigned@).contains(x) implies covered(es, nodes@, k + 1).contains(x) by {
                        if before_assigned.contains(x) {
                            let i = choose|i: int| 0 <= i < k && #[trigger] component(es, nodes@[i]@).contains(x);
                            assert(0 <= i < k + 1);
                        } else {
                            assert(component(es, nodes@[k as int]@).contains(x));
                        }
                    }
                }
            }
            if sorted.len() > 1 {
                let members = to_strings(&sorted);
                let types = internal_edge_types(edges, &members);
                let type_names = to_strings(&types);
                let group = SccGroup { node_ids: members, edge_types: type_names };
                proof {
                    let ns = strings_view(group.node_ids@);
                    assert(ns == vv(sorted@));
                    assert(names(members@) =~= comp) by {
                        assert forall|x: Seq<char>| names(members@).contains(x) implies comp.contains(x) by {
                            let i = choose|i: int| 0 <= i < members@.len() && (#[trigger] members@[i])@ == x;
                            assert(ns[i] == x);
                        }
                        assert forall|x: Seq<char>| comp.contains(x) implies names(members@).contains(x) by {
                            assert(ns.to_set().contains(x));
                            let i = choose|i: int| 0 <= i < ns.len() && ns[i] == x;
                            assert(members@[i]@ == x);
                        }
                    }
                    assert(ns.to_set().contains(ns[0]));
                    lemma_component_same(es, v, ns[0]);
                    assert(group_nodes(group) == component(es, ns[0]));
                    assert(is_cycle_group(es, group));
                }
                groups.push(group);
                proof {
                    assert forall|i: int| 0 <= i < groups@.len() implies is_cycle_group(es, #[trigger] groups@[i]) by {
                        if i < before_groups.len() {
                            assert(groups@[i] == before_groups[i]);
                        }
                    }
                    assert forall|i: int| 0 <= i < groups@.len() implies (#[trigger] group_nodes(groups@[i])).subset_of(names(assigned@)) by {
                        if i < before_groups.len() {
                            assert(groups@[i] == before_groups[i]);
                        }
                    }
                    assert forall|i: int, j: int, x: Seq<char>|
                        0 <= i < j < groups@.len() implies !(#[trigger] group_nodes(groups@[i]).contains(x) && #[trigger] group_nodes(groups@[j]).contains(x)) by {
                        assert(groups@[i] == before_groups[i]);
                        if j < before_groups.len() {
                            assert(groups@[j] == before_groups[j]);
                        } else if group_nodes(groups@[i]).contains(x) && group_nodes(groups@[j]).contains(x) {
                            let g = before_groups[i];
                            let g0 = strings_view(g.node_ids@)[0];
                            assert(is_cycle_group(es, g));
                            assert(component(es, g0).contains(x));
                            lemma_component_same(es, g0, x);
                            assert(comp.contains(x));
                            lemma_component_same(es, v, x);
                            assert(component(es, g0).contains(v));
                            assert(before_assigned.contains(v));
                        }
                    }
                }
            }
            proof {
                assert forall|x: Seq<char>| #[trigger] covered(es, nodes@, k + 1).contains(x) && on_cycle(es, x) implies exists|i: int|
                    0 <= i < groups@.len() && #[trigger] group_nodes(groups@[i]).contains(x) by {
                    if covered(es, nodes@, k as int).contains(x) {
                        let i = choose|i: int| 0 <= i < before_groups.len() && #[trigger] group_nodes(before_groups[i]).contains(x);
                        assert(groups@[i] == before_groups[i]);
                    } else {
                        assert(comp.contains(x));
                        lemma_component_same(es, v, x);
                        let y = choose|y: Seq<char>| y != x && #[trigger] component(es, x).contains(y);
                        let ss = vv(sorted@);
                        assert(ss.to_set().contains(x) && ss.to_set().contains(y));
                        assert(sorted@.len() > 1) by {
                            if sorted@.len() <= 1 {
                                let a = choose|a: int| 0 <= a < ss.len() && ss[a] == x;
                                let b = choose|b: int| 0 <= b < ss.len() && ss[b] == y;
                            }
                        }
                        let last = (groups@.len() - 1) as int;
                        assert(group_nodes(groups@[last]) == comp);
                    }
                }
            }
        }
        k += 1;
    }
    proof {
        assert forall|x: Seq<char>| on_cycle(es, x) implies exists|i: int| 0 <= i < groups@.len() && #[trigger] group_nodes(groups@[i]).contains(x) by {
            let i = choose|i: int| 0 <= i < nodes@.len() && (#[trigger] nodes@[i])@ == x;
            lemma_component_self(es, x);
            assert(component(es, nodes@[i]@).contains(x));
            assert(covered(es, nodes@, k as int).contains(x));
        }
    }
    groups
}

/// The warning of a cycle scan that found more edges than it may read.
pub open spec fn partial_scan_warning() -> Seq<char> {
    "edge scan reached the requested limit; cycle results may be partial"@
}

/// The answer to a cycle request over the edges read (up to one more than
/// `limit`): the edges of the asked-for types are kept, at most `limit` of
/// them are searched for cycles, and a warning says when more were there.
pub fn graph_cycles_outcome(edges: Vec<GraphEdge>, edge_types: &Vec<String>, limit: usize) -> (r: (Vec<SccGroup>, Option<String>))
    ensures
        ({
            let kept = edges_of_types(edges_view(edges@), strings_view(edge_types@));
            let searched = if kept.len() > limit {
                kept.take(limit as int)
            } else {
                kept
            };
            &&& cycle_cover(searched, r.0@)
            &&& (kept.len() > limit ==> r.1 is Some && r.1->Some_0@ == partial_scan_warning())
            &&& (kept.len() <= limit ==> r.1 is None)
        }),
{
    let mut kept = filtered_edges(edges, edge_types);
    let warning = if kept.len() > limit {
        Some("edge scan reached the requested limit; cycle results may be partial".to_owned())
    } else {
        None
    };
    let ghost all = edges_view(kept@);
    if kept.len() > limit {
        kept.truncate(limit);
        assert(edges_view(kept@) =~= all.take(limit as int));
    }
    let groups = cycle_groups(&kept);
    (groups, warning)
}

} // verus!
