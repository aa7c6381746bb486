//! What holds of the registry's reports across operations: a registered
//! project is listed and has a status, registering it again without
//! `--update` is refused, every group is listed with its member count,
//! and a group's status shows a line for each member.
use vstd::prelude::*;

use crate::registry::laws::lemma_sort_contains;
use crate::registry::ops::{
    already_registered_text, group_add_outcome, group_create_outcome, group_index, has_group,
    has_project, lemma_group_index, match_index, new_group_id, reg_entry, reg_id, reg_name,
    reg_project_path, register_outcome,
};
use crate::registry::report::{
    status_text,
    group_entries, group_entry, group_listing, group_status_text, member_line, member_lines,
    project_entries, project_entry, project_index, project_listing,
};
use crate::registry::{
    group_id, id_error, project_id, sort_by_key, GroupCreateOptions, GroupView, PathFacts, ProjectView,
    RegisterOptions, RegistryView,
};
use crate::text::strings_view;
use crate::text::{bool_text, contains, joined_with, lemma_contains_concat, lemma_contains_self};

verus! {

/// The listing's entries hold each project's entry.
proof fn lemma_entries_hold(ps: Seq<ProjectView>, fs: Seq<PathFacts>, k: int)
    requires
        0 <= k < ps.len(),
        fs.len() == ps.len(),
    ensures
        contains(project_entries(ps, fs), project_entry(ps[k], fs[k])),
    decreases ps.len(),
{
    let n = ps.len() - 1;
    let pre = project_entries(ps.drop_last(), fs.drop_last());
    let e = project_entry(ps.last(), fs[n]);
    assert(project_entries(ps, fs) == pre + "\n"@ + e);
    if k == n {
        lemma_contains_self(e);
        lemma_contains_concat(pre + "\n"@, e, e);
    } else {
        lemma_entries_hold(ps.drop_last(), fs.drop_last(), k);
        assert(ps.drop_last()[k] == ps[k] && fs.drop_last()[k] == fs[k]);
        lemma_contains_concat(pre, "\n"@, project_entry(ps[k], fs[k]));
        lemma_contains_concat(pre + "\n"@, e, project_entry(ps[k], fs[k]));
    }
}

/// The project listing shows each project's entry: its id, name, what
/// exists on disk, its tags, path and database.
pub proof fn lemma_listing_shows_each_project(ps: Seq<ProjectView>, path: Seq<char>, fs: Seq<PathFacts>, k: int)
    requires
        0 <= k < ps.len(),
        fs.len() == ps.len(),
    ensures
        contains(project_listing(ps, path, fs), project_entry(ps[k], fs[k])),
{
    lemma_entries_hold(ps, fs, k);
    lemma_contains_concat("registry: "@ + path + "\nprojects:"@, project_entries(ps, fs), project_entry(ps[k], fs[k]));
}

/// A project whose id matches is found before the end.
proof fn lemma_match_index_at(ps: Seq<ProjectView>, id: Seq<char>, path: Seq<char>, k: int)
    requires
        0 <= k < ps.len(),
        ps[k].id == id,
    ensures
        match_index(ps, id, path) <= k,
    decreases ps.len(),
{
    if k > 0 && !(ps[0].id == id) && !crate::registry::same_path(ps[0].path, path) {
        lemma_match_index_at(ps.drop_first(), id, path, k - 1);
    }
}

/// A project with the id is found by its id before the end.
proof fn lemma_project_index_at(ps: Seq<ProjectView>, pid: Seq<char>, k: int)
    requires
        0 <= k < ps.len(),
        ps[k].id == pid,
    ensures
        project_index(ps, pid) <= k,
        ps[project_index(ps, pid) as int].id == pid,
    decreases ps.len(),
{
    if k > 0 && ps[0].id != pid {
        lemma_project_index_at(ps.drop_first(), pid, k - 1);
    }
}

/// After a registration the registered entry is among the projects.
pub proof fn lemma_registered_entry(reg: RegistryView, o: RegisterOptions, cwd: Seq<char>, now: Seq<char>) -> (k:
    int)
    requires
        register_outcome(reg, o, cwd, now) is Ok,
    ensures
        0 <= k < register_outcome(reg, o, cwd, now)->Ok_0.projects.len(),
        ({
            let ps = reg.projects;
            let i = match_index(ps, reg_id(o, cwd), reg_project_path(o, cwd));
            register_outcome(reg, o, cwd, now)->Ok_0.projects[k] == if i < ps.len() {
                reg_entry(o, cwd, now, Some(ps[i as int]))
            } else {
                reg_entry(o, cwd, now, None)
            }
        }),
{
    let id = reg_id(o, cwd);
    let i = match_index(reg.projects, id, reg_project_path(o, cwd));
    let e = if i < reg.projects.len() {
        reg_entry(o, cwd, now, Some(reg.projects[i as int]))
    } else {
        reg_entry(o, cwd, now, None)
    };
    let ps = if i < reg.projects.len() {
        reg.projects.update(i as int, e)
    } else {
        reg.projects.push(e)
    };
    let v = register_outcome(reg, o, cwd, now)->Ok_0;
    assert(v.projects == sort_by_key(ps, project_id()));
    lemma_sort_contains(ps, project_id());
    let at: int = if i < reg.projects.len() {
        i as int
    } else {
        reg.projects.len() as int
    };
    assert(ps[at] == e);
    assert(ps.contains(e));
    assert(v.projects.contains(e));
    choose|m: int| 0 <= m < v.projects.len() && v.projects[m] == e
}

/// A registered project is listed with its entry, and its status is
/// found by its id.
pub proof fn lemma_registered_project_listed(
    reg: RegistryView,
    o: RegisterOptions,
    cwd: Seq<char>,
    now: Seq<char>,
    path: Seq<char>,
    fs: Seq<PathFacts>,
)
    requires
        register_outcome(reg, o, cwd, now) is Ok,
        fs.len() == register_outcome(reg, o, cwd, now)->Ok_0.projects.len(),
    ensures
        ({
            let v = register_outcome(reg, o, cwd, now)->Ok_0;
            &&& exists|k: int|
                0 <= k < v.projects.len() && (#[trigger] v.projects[k]).id == reg_id(o, cwd)
                    && v.projects[k].name == reg_name(o, cwd) && v.projects[k].tags == strings_view(o.tags@)
                    && contains(project_listing(v.projects, path, fs), project_entry(v.projects[k], fs[k]))
            &&& project_index(v.projects, reg_id(o, cwd)) < v.projects.len()
            &&& v.projects[project_index(v.projects, reg_id(o, cwd)) as int].id == reg_id(o, cwd)
        }),
{
    let v = register_outcome(reg, o, cwd, now)->Ok_0;
    let k = lemma_registered_entry(reg, o, cwd, now);
    assert(v.projects[k].id == reg_id(o, cwd));
    lemma_listing_shows_each_project(v.projects, path, fs, k);
    lemma_project_index_at(v.projects, reg_id(o, cwd), k);
}

/// Registering the same project again without `--update` is refused, with
/// the hint to pass `--update`.
pub proof fn lemma_register_again_refused(
    reg: RegistryView,
    o: RegisterOptions,
    cwd: Seq<char>,
    now: Seq<char>,
    later: Seq<char>,
)
    requires
        register_outcome(reg, o, cwd, now) is Ok,
        !o.update,
    ensures
        register_outcome(register_outcome(reg, o, cwd, now)->Ok_0, o, cwd, later) == Err::<
            RegistryView,
            Seq<char>,
        >(already_registered_text()),
{
    let v = register_outcome(reg, o, cwd, now)->Ok_0;
    let k = lemma_registered_entry(reg, o, cwd, now);
    assert(id_error(reg_id(o, cwd)) is None);
    assert(v.projects[k].id == reg_id(o, cwd));
    lemma_match_index_at(v.projects, reg_id(o, cwd), reg_project_path(o, cwd), k);
}

/// The group listing shows each group's entry, with its member count.
pub proof fn lemma_listing_shows_each_group(gs: Seq<GroupView>, path: Seq<char>, k: int)
    requires
        0 <= k < gs.len(),
    ensures
        contains(group_listing(gs, path), group_entry(gs[k])),
    decreases gs.len(),
{
    lemma_group_entries_hold(gs, k);
    lemma_contains_concat("registry: "@ + path + "\ngroups:"@, group_entries(gs), group_entry(gs[k]));
}

proof fn lemma_group_entries_hold(gs: Seq<GroupView>, k: int)
    requires
        0 <= k < gs.len(),
    ensures
        contains(group_entries(gs), group_entry(gs[k])),
    decreases gs.len(),
{
    let pre = group_entries(gs.drop_last());
    let e = group_entry(gs.last());
    assert(group_entries(gs) == pre + e);
    if k == gs.len() - 1 {
        lemma_contains_self(e);
        lemma_contains_concat(pre, e, e);
    } else {
        lemma_group_entries_hold(gs.drop_last(), k);
        assert(gs.drop_last()[k] == gs[k]);
        lemma_contains_concat(pre, e, group_entry(gs[k]));
    }
}

proof fn lemma_member_lines_hold(ps: Seq<ProjectView>, fs: Seq<PathFacts>, ids: Seq<Seq<char>>, j: int)
    requires
        0 <= j < ids.len(),
    ensures
        contains(member_lines(ps, fs, ids), member_line(ps, fs, ids[j])),
    decreases ids.len(),
{
    let pre = member_lines(ps, fs, ids.drop_last());
    let e = member_line(ps, fs, ids.last());
    assert(member_lines(ps, fs, ids) == pre + e);
    if j == ids.len() - 1 {
        lemma_contains_self(e);
        lemma_contains_concat(pre, e, e);
    } else {
        lemma_member_lines_hold(ps, fs, ids.drop_last(), j);
        assert(ids.drop_last()[j] == ids[j]);
        lemma_contains_concat(pre, e, member_line(ps, fs, ids[j]));
    }
}

/// A group's status shows a line for each member: its registered
/// project's id, name and what exists on disk, or a note that no project
/// of that id is registered.
pub proof fn lemma_group_status_shows_each_member(g: GroupView, ps: Seq<ProjectView>, fs: Seq<PathFacts>, j: int)
    requires
        0 <= j < g.project_ids.len(),
    ensures
        contains(group_status_text(g, ps, fs), member_line(ps, fs, g.project_ids[j])),
{
    lemma_member_lines_hold(ps, fs, g.project_ids, j);
    let head = "group: "@ + g.id + "\nname: "@ + g.name + "\ndescription: "@ + g.description + "\ntags: "@
        + crate::text::joined_with(g.tags, ","@) + "\nprojects:"@;
    assert(group_status_text(g, ps, fs) == head + member_lines(ps, fs, g.project_ids));
    lemma_contains_concat(head, member_lines(ps, fs, g.project_ids), member_line(ps, fs, g.project_ids[j]));
}

/// A group just created and given one project is listed with its id,
/// name, tags and a member count of one.
pub proof fn lemma_created_group_listed(
    reg: RegistryView,
    o: GroupCreateOptions,
    now: Seq<char>,
    pid: Seq<char>,
    later: Seq<char>,
    path: Seq<char>,
)
    requires
        group_create_outcome(reg, o, now) is Ok,
        group_add_outcome(group_create_outcome(reg, o, now)->Ok_0, new_group_id(o), pid, later) is Ok,
    ensures
        ({
            let v = group_add_outcome(group_create_outcome(reg, o, now)->Ok_0, new_group_id(o), pid, later)->Ok_0;
            exists|k: int|
                0 <= k < v.groups.len() && (#[trigger] v.groups[k]).id == new_group_id(o) && v.groups[k].name
                    == o.name@ && v.groups[k].tags == strings_view(o.tags@) && v.groups[k].project_ids == seq![pid]
                    && contains(group_listing(v.groups, path), group_entry(v.groups[k]))
        }),
{
    let id = new_group_id(o);
    let v1 = group_create_outcome(reg, o, now)->Ok_0;
    let g = GroupView {
        id,
        name: o.name@,
        description: o.description@,
        project_ids: Seq::empty(),
        tags: strings_view(o.tags@),
        created_at: now,
        updated_at: now,
    };
    let pushed = reg.groups.push(g);
    assert(v1.groups == sort_by_key(pushed, group_id()));
    lemma_sort_contains(pushed, group_id());
    assert(pushed[reg.groups.len() as int] == g);
    assert(pushed.contains(g));
    assert(v1.groups.contains(g));
    let kg = choose|k: int| 0 <= k < v1.groups.len() && v1.groups[k] == g;
    lemma_group_index_at(v1.groups, id, kg);
    lemma_first_group(v1.groups, id);
    let k = group_index(v1.groups, id) as int;
    assert(v1.groups[k].id == id);
    assert(v1.groups.contains(v1.groups[k]));
    assert(pushed.contains(v1.groups[k]));
    let q = choose|q: int| 0 <= q < pushed.len() && pushed[q] == v1.groups[k];
    if q < reg.groups.len() {
        assert(reg.groups[q] == pushed[q]);
        assert(!has_group(reg, id));
    }
    assert(v1.groups[k] == g);
    let v = group_add_outcome(v1, id, pid, later)->Ok_0;
    let g2 = v.groups[k];
    assert(!g.project_ids.contains(pid));
    assert(g2.project_ids =~= seq![pid]);
    lemma_listing_shows_each_group(v.groups, path, k);
}

/// After a project is added to a group, the group's status shows the
/// project's line: its id and name as registered, and what exists on disk.
pub proof fn lemma_added_member_in_status(reg: RegistryView, gid: Seq<char>, pid: Seq<char>, now: Seq<char>, fs: Seq<PathFacts>)
    requires
        group_add_outcome(reg, gid, pid, now) is Ok,
    ensures
        ({
            let v = group_add_outcome(reg, gid, pid, now)->Ok_0;
            let i = group_index(v.groups, gid);
            let p = project_index(v.projects, pid);
            &&& i < v.groups.len()
            &&& v.groups[i as int].project_ids.contains(pid)
            &&& p < v.projects.len()
            &&& v.projects[p as int].id == pid
            &&& contains(group_status_text(v.groups[i as int], v.projects, fs), member_line(v.projects, fs, pid))
        }),
{
    let v = group_add_outcome(reg, gid, pid, now)->Ok_0;
    let i = group_index(reg.groups, gid);
    crate::registry::report::lemma_group_index_bound(reg.groups, gid);
    lemma_first_group(reg.groups, gid);
    assert forall|m: int| 0 <= m < i implies (#[trigger] v.groups[m]).id != gid by {
        assert(v.groups[m] == reg.groups[m]);
    }
    lemma_group_index(v.groups, gid, i as int);
    let g2 = v.groups[i as int];
    if !reg.groups[i as int].project_ids.contains(pid) {
        assert(g2.project_ids == reg.groups[i as int].project_ids.push(pid));
        assert(g2.project_ids[g2.project_ids.len() - 1] == pid);
    }
    assert(g2.project_ids.contains(pid));
    let j = choose|j: int| 0 <= j < g2.project_ids.len() && g2.project_ids[j] == pid;
    lemma_group_status_shows_each_member(g2, v.projects, fs, j);
    let k = choose|k: int| 0 <= k < reg.projects.len() && (#[trigger] reg.projects[k]).id == pid;
    lemma_project_index_at(v.projects, pid, k);
}

/// A group with the id is found by its id no later than its place.
proof fn lemma_group_index_at(gs: Seq<GroupView>, gid: Seq<char>, k: int)
    requires
        0 <= k < gs.len(),
        gs[k].id == gid,
    ensures
        group_index(gs, gid) <= k,
    decreases gs.len(),
{
    if k > 0 && gs[0].id != gid {
        lemma_group_index_at(gs.drop_first(), gid, k - 1);
    }
}

/// Before the first group with an id, no group has it.
proof fn lemma_first_group(gs: Seq<GroupView>, gid: Seq<char>)
    ensures
        forall|m: int| 0 <= m < group_index(gs, gid) && m < gs.len() ==> (#[trigger] gs[m]).id != gid,
        group_index(gs, gid) < gs.len() ==> gs[group_index(gs, gid) as int].id == gid,
    decreases gs.len(),
{
    if gs.len() > 0 && gs[0].id != gid {
        lemma_first_group(gs.drop_first(), gid);
        assert forall|m: int| 0 <= m < group_index(gs, gid) && m < gs.len() implies (#[trigger] gs[m]).id != gid by {
            if m > 0 {
                assert(gs[m] == gs.drop_first()[m - 1]);
            }
        }
    }
}

/// A project's status tells whether its database file exists as the
/// database fact says, and whether its path exists as the path fact says;
/// neither line depends on the other fact.
pub proof fn lemma_status_reports_each_fact(p: ProjectView, f: PathFacts)
    ensures
        contains(
            status_text(p, f),
            "\ndatabase_exists: "@ + if f.database_exists {
                "true"@
            } else {
                "false"@
            },
        ),
        contains(
            status_text(p, f),
            "\npath_exists: "@ + if f.path_exists {
                "true"@
            } else {
                "false"@
            },
        ),
{
    let last = match p.last_indexed_at {
        Some(t) => t,
        None => "unknown"@,
    };
    let head = "project: "@ + p.id + "\nname: "@ + p.name + "\npath: "@ + p.path;
    let path_line = "\npath_exists: "@ + bool_text(f.path_exists);
    let mid = "\ndatabase: "@ + p.database;
    let db_line = "\ndatabase_exists: "@ + bool_text(f.database_exists);
    let tail = "\nb3_dir_exists: "@ + bool_text(f.b3_dir_exists) + "\ntags: "@ + joined_with(p.tags, ","@)
        + "\nlast_indexed_at: "@ + last;
    assert(status_text(p, f) =~= head + path_line + mid + db_line + tail);
    lemma_contains_self(db_line);
    lemma_contains_concat(head + path_line + mid, db_line, db_line);
    lemma_contains_concat(head + path_line + mid + db_line, tail, db_line);
    lemma_contains_self(path_line);
    lemma_contains_concat(head, path_line, path_line);
    lemma_contains_concat(head + path_line, mid + db_line + tail, path_line);
    assert(head + path_line + (mid + db_line + tail) =~= head + path_line + mid + db_line + tail);
}

} // verus!
