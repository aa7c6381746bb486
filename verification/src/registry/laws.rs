//! What holds of the registry across its operations: projects stay in
//! order of id, a registered project can be found, an unregistered one is
//! gone from everywhere, and adding a project to a group twice is adding
//! it once.
use vstd::prelude::*;

use crate::line_set::{lemma_lt_asymmetric, lemma_lt_total, lemma_lt_transitive, seq_lt};
use crate::registry::ops::{
    group_add_outcome, group_index, has_project, other_ids, other_projects, register_outcome,
    reg_id, unregister_outcome, without_member,
};
use crate::registry::{insert_by_key, project_id, sort_by_key, RegisterOptions, RegistryView};

verus! {

/// The items are in ascending order of key (equal keys side by side).
pub open spec fn sorted_by_key<T>(s: Seq<T>, key: spec_fn(T) -> Seq<char>) -> bool {
    forall|i: int, j: int| 0 <= i < j < s.len() ==> !seq_lt(key(#[trigger] s[j]), key(#[trigger] s[i]))
}

/// `a` comes no later than `b` and `b` no later than `c`, so `a` no
/// later than `c`.
proof fn lemma_le_transitive(a: Seq<char>, b: Seq<char>, c: Seq<char>)
    requires
        !seq_lt(b, a),
        !seq_lt(c, b),
    ensures
        !seq_lt(c, a),
{
    if seq_lt(c, a) {
        if a != b {
            lemma_lt_total(a, b);
        }
        if b != c {
            lemma_lt_total(b, c);
        }
        if a == b {
            assert(b != c);
            lemma_lt_asymmetric(b, c);
        } else if b == c {
            lemma_lt_asymmetric(a, b);
        } else {
            lemma_lt_transitive(a, b, c);
            lemma_lt_asymmetric(a, c);
        }
    }
}

/// Inserting by key keeps the items and adds the new one.
pub proof fn lemma_insert_contains<T>(s: Seq<T>, x: T, key: spec_fn(T) -> Seq<char>)
    ensures
        insert_by_key(s, x, key).len() == s.len() + 1,
        forall|y: T| #[trigger] insert_by_key(s, x, key).contains(y) <==> (s.contains(y) || y == x),
    decreases s.len(),
{
    if s.len() == 0 {
        assert(insert_by_key(s, x, key) == seq![x]);
        assert(seq![x][0] == x);
    } else {
        let r = insert_by_key(s, x, key);
        if seq_lt(key(x), key(s.last())) {
            lemma_insert_contains(s.drop_last(), x, key);
            let inner = insert_by_key(s.drop_last(), x, key);
            assert(r == inner.push(s.last()));
            assert forall|y: T| r.contains(y) <==> (s.contains(y) || y == x) by {
                if r.contains(y) {
                    let k = choose|k: int| 0 <= k < r.len() && r[k] == y;
                    if k < inner.len() {
                        assert(inner[k] == y);
                        assert(inner.contains(y));
                        if s.drop_last().contains(y) {
                            let m = choose|m: int| 0 <= m < s.drop_last().len() && s.drop_last()[m] == y;
                            assert(s[m] == y);
                        }
                    } else {
                        assert(s[s.len() - 1] == y);
                    }
                }
                if s.contains(y) {
                    let m = choose|m: int| 0 <= m < s.len() && s[m] == y;
                    if m < s.len() - 1 {
                        assert(s.drop_last()[m] == y);
                        assert(inner.contains(y));
                        let k = choose|k: int| 0 <= k < inner.len() && inner[k] == y;
                        assert(r[k] == y);
                    } else {
                        assert(r[r.len() - 1] == y);
                    }
                }
                if y == x {
                    assert(inner.contains(x));
                    let k = choose|k: int| 0 <= k < inner.len() && inner[k] == x;
                    assert(r[k] == x);
                }
            }
        } else {
            assert forall|y: T| r.contains(y) <==> (s.contains(y) || y == x) by {
                if r.contains(y) {
                    let k = choose|k: int| 0 <= k < r.len() && r[k] == y;
                    if k < s.len() {
                        assert(s[k] == y);
                    }
                }
                if s.contains(y) {
                    let m = choose|m: int| 0 <= m < s.len() && s[m] == y;
                    assert(r[m] == y);
                }
                if y == x {
                    assert(r[s.len() as int] == x);
                }
            }
        }
    }
}

/// Sorting by key keeps exactly the items there were.
pub proof fn lemma_sort_contains<T>(s: Seq<T>, key: spec_fn(T) -> Seq<char>)
    ensures
        sort_by_key(s, key).len() == s.len(),
        forall|y: T| #[trigger] sort_by_key(s, key).contains(y) <==> s.contains(y),
    decreases s.len(),
{
    if s.len() > 0 {
        lemma_sort_contains(s.drop_last(), key);
        lemma_insert_contains(sort_by_key(s.drop_last(), key), s.last(), key);
        assert forall|y: T| sort_by_key(s, key).contains(y) <==> s.contains(y) by {
            if s.drop_last().contains(y) {
                let m = choose|m: int| 0 <= m < s.drop_last().len() && s.drop_last()[m] == y;
                assert(s[m] == y);
            }
            if s.contains(y) {
                let m = choose|m: int| 0 <= m < s.len() && s[m] == y;
                if m < s.len() - 1 {
                    assert(s.drop_last()[m] == y);
                }
            }
            if y == s.last() {
                assert(s[s.len() - 1] == y);
            }
        }
    }
}

/// Inserting by key into items in order of key keeps them in order.
pub proof fn lemma_insert_sorted<T>(s: Seq<T>, x: T, key: spec_fn(T) -> Seq<char>)
    requires
        sorted_by_key(s, key),
    ensures
        sorted_by_key(insert_by_key(s, x, key), key),
    decreases s.len(),
{
    let r = insert_by_key(s, x, key);
    if s.len() == 0 {
        assert(r == seq![x]);
    } else {
        let last = s.last();
        if seq_lt(key(x), key(last)) {
            let front = s.drop_last();
            assert(sorted_by_key(front, key)) by {
                assert forall|i: int, j: int| 0 <= i < j < front.len() implies !seq_lt(key(#[trigger] front[j]), key(#[trigger] front[i])) by {
                    assert(front[i] == s[i]);
                    assert(front[j] == s[j]);
                }
            }
            lemma_insert_sorted(front, x, key);
            lemma_insert_contains(front, x, key);
            let inner = insert_by_key(front, x, key);
            assert forall|i: int, j: int| 0 <= i < j < r.len() implies !seq_lt(key(#[trigger] r[j]), key(#[trigger] r[i])) by {
                if j < inner.len() {
                    assert(r[i] == inner[i]);
                    assert(r[j] == inner[j]);
                } else {
                    assert(r[j] == last);
                    assert(r[i] == inner[i]);
                    assert(inner.contains(inner[i]));
                    if front.contains(inner[i]) {
                        let m = choose|m: int| 0 <= m < front.len() && front[m] == inner[i];
                        assert(s[m] == inner[i]);
                        assert(!seq_lt(key(s[s.len() - 1]), key(s[m])));
                    } else {
                        assert(inner[i] == x);
                        lemma_lt_asymmetric(key(x), key(last));
                    }
                }
            }
        } else {
            assert forall|i: int, j: int| 0 <= i < j < r.len() implies !seq_lt(key(#[trigger] r[j]), key(#[trigger] r[i])) by {
                assert(r[i] == s[i]);
                if j < s.len() {
                    assert(r[j] == s[j]);
                } else {
                    assert(r[j] == x);
                    if i < s.len() - 1 {
                        assert(!seq_lt(key(s[s.len() - 1]), key(s[i])));
                        lemma_le_transitive(key(s[i]), key(last), key(x));
                    }
                }
            }
        }
    }
}

/// Sorting by key puts the items in order of key.
pub proof fn lemma_sort_sorted<T>(s: Seq<T>, key: spec_fn(T) -> Seq<char>)
    ensures
        sorted_by_key(sort_by_key(s, key), key),
    decreases s.len(),
{
    if s.len() > 0 {
        lemma_sort_sorted(s.drop_last(), key);
        lemma_insert_sorted(sort_by_key(s.drop_last(), key), s.last(), key);
    }
}

/// A registration leaves the projects in order of id, with a project of
/// the registered id among them.
pub proof fn lemma_register_found(reg: RegistryView, o: RegisterOptions, cwd: Seq<char>, now: Seq<char>)
    requires
        register_outcome(reg, o, cwd, now) is Ok,
    ensures
        sorted_by_key(register_outcome(reg, o, cwd, now)->Ok_0.projects, project_id()),
        has_project(register_outcome(reg, o, cwd, now)->Ok_0, reg_id(o, cwd)),
{
    let v = register_outcome(reg, o, cwd, now)->Ok_0;
    let id = reg_id(o, cwd);
    let i = crate::registry::ops::match_index(reg.projects, id, crate::registry::ops::reg_project_path(o, cwd));
    let ps = if i < reg.projects.len() {
        reg.projects.update(i as int, crate::registry::ops::reg_entry(o, cwd, now, Some(reg.projects[i as int])))
    } else {
        reg.projects.push(crate::registry::ops::reg_entry(o, cwd, now, None))
    };
    assert(v.projects == sort_by_key(ps, project_id()));
    lemma_sort_sorted(ps, project_id());
    lemma_sort_contains(ps, project_id());
    let k: int = if i < reg.projects.len() {
        i as int
    } else {
        reg.projects.len() as int
    };
    assert(ps[k].id == id);
    assert(ps.contains(ps[k]));
    assert(sort_by_key(ps, project_id()).contains(ps[k]));
    assert(v.projects.contains(ps[k]));
    let m = choose|m: int| 0 <= m < v.projects.len() && v.projects[m] == ps[k];
    assert(v.projects[m].id == id);
}

/// After an unregistration no project and no group holds the id.
pub proof fn lemma_unregister_removes(reg: RegistryView, pid: Seq<char>, now: Seq<char>)
    requires
        unregister_outcome(reg, pid, now) is Ok,
    ensures
        !has_project(unregister_outcome(reg, pid, now)->Ok_0, pid),
        forall|g: int|
            0 <= g < unregister_outcome(reg, pid, now)->Ok_0.groups.len() ==> !(#[trigger] unregister_outcome(
                reg,
                pid,
                now,
            )->Ok_0.groups[g]).project_ids.contains(pid),
{
    let v = unregister_outcome(reg, pid, now)->Ok_0;
    assert(!has_project(v, pid)) by {
        if has_project(v, pid) {
            let k = choose|k: int| 0 <= k < v.projects.len() && (#[trigger] v.projects[k]).id == pid;
            reg.projects.lemma_filter_pred(other_projects(pid), k);
        }
    }
    assert forall|g: int| 0 <= g < v.groups.len() implies !(#[trigger] v.groups[g]).project_ids.contains(pid) by {
        let ids = reg.groups[g].project_ids;
        assert(v.groups[g] == without_member(reg.groups[g], pid, now));
        if ids.filter(other_ids(pid)).contains(pid) {
            let k = choose|k: int| 0 <= k < ids.filter(other_ids(pid)).len() && ids.filter(other_ids(pid))[k] == pid;
            ids.lemma_filter_pred(other_ids(pid), k);
        }
    }
}

/// Adding a project to a group again changes nothing.
pub proof fn lemma_group_add_idempotent(reg: RegistryView, gid: Seq<char>, pid: Seq<char>, now: Seq<char>)
    requires
        group_add_outcome(reg, gid, pid, now) is Ok,
    ensures
        group_add_outcome(group_add_outcome(reg, gid, pid, now)->Ok_0, gid, pid, now) == group_add_outcome(reg, gid, pid, now),
{
    let v = group_add_outcome(reg, gid, pid, now)->Ok_0;
    let i = group_index(reg.groups, gid);
    lemma_group_index_found(reg.groups, gid);
    lemma_group_index_update(reg.groups, gid, i as int, v.groups[i as int]);
    assert(group_index(v.groups, gid) == i);
    let g2 = v.groups[i as int];
    if !reg.groups[i as int].project_ids.contains(pid) {
        assert(g2.project_ids[g2.project_ids.len() - 1] == pid);
    }
    assert(g2.project_ids.contains(pid));
    assert(v.groups.update(i as int, g2) =~= v.groups);
}

/// The index of the first group of an id, when there is one, holds it,
/// and no earlier group does.
proof fn lemma_group_index_found(gs: Seq<crate::registry::GroupView>, gid: Seq<char>)
    ensures
        group_index(gs, gid) <= gs.len(),
        group_index(gs, gid) < gs.len() ==> gs[group_index(gs, gid) as int].id == gid,
        forall|k: int| 0 <= k < group_index(gs, gid) ==> (#[trigger] gs[k]).id != gid,
    decreases gs.len(),
{
    if gs.len() > 0 && gs[0].id != gid {
        lemma_group_index_found(gs.drop_first(), gid);
        assert forall|k: int| 0 <= k < group_index(gs, gid) implies (#[trigger] gs[k]).id != gid by {
            if k > 0 {
                assert(gs[k] == gs.drop_first()[k - 1]);
            }
        }
    }
}

/// Replacing a group by one of the same id leaves the first index of the
/// id where it was.
proof fn lemma_group_index_update(gs: Seq<crate::registry::GroupView>, gid: Seq<char>, i: int, g: crate::registry::GroupView)
    requires
        0 <= i < gs.len(),
        i == group_index(gs, gid),
        g.id == gid,
    ensures
        group_index(gs.update(i, g), gid) == i,
    decreases i,
{
    lemma_group_index_found(gs, gid);
    if i > 0 {
        assert(gs[0].id != gid);
        assert(gs.update(i, g).drop_first() =~= gs.drop_first().update(i - 1, g));
        lemma_group_index_update(gs.drop_first(), gid, i - 1, g);
    }
}

} // verus!
