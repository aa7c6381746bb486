//! What the registry commands print: project and group listings and the
//! status of one project or group.
use vstd::prelude::*;

use crate::registry::ops::{group_index, group_not_found, project_not_found};
use crate::registry::{groups_view, projects_view, GroupView, PathFacts, ProjectView, Registry};
use crate::text::{
    bool_text, dec, joined_with, push_bool, push_dec, push_joined, push_str, str_eq,
    string_from_chars,
};

verus! {

broadcast use vstd::string::group_string_axioms;

/// A project's entry in the listing.
pub open spec fn project_entry(p: ProjectView, f: PathFacts) -> Seq<char> {
    "- "@ + p.id + " | "@ + p.name + " | path_exists="@ + bool_text(f.path_exists)
        + " | db_exists="@ + bool_text(f.database_exists) + " | tags="@ + joined_with(p.tags, ","@)
        + "\n  path: "@ + p.path + "\n  database: "@ + p.database
}

/// The entries of the projects, each after a newline.
pub open spec fn project_entries(ps: Seq<ProjectView>, fs: Seq<PathFacts>) -> Seq<char>
    decreases ps.len(),
{
    if ps.len() == 0 {
        Seq::empty()
    } else {
        project_entries(ps.drop_last(), fs.drop_last()) + "\n"@ + project_entry(
            ps.last(),
            fs[ps.len() - 1],
        )
    }
}

/// The project listing of a registry at `path`; `fs` tells what exists on
/// disk for each project.
pub open spec fn project_listing(ps: Seq<ProjectView>, path: Seq<char>, fs: Seq<PathFacts>) -> Seq<
    char,
> {
    if ps.len() == 0 {
        "registry: "@ + path + "\nprojects: none"@
    } else {
        "registry: "@ + path + "\nprojects:"@ + project_entries(ps, fs)
    }
}

fn push_project_entry(out: &mut Vec<char>, p: &crate::registry::RegistryProject, f: PathFacts)
    ensures
        final(out)@ == old(out)@ + project_entry(p@, f),
{
    let ghost start = out@;
    push_str(out, "- ");
    push_str(out, p.id.as_str());
    push_str(out, " | ");
    push_str(out, p.name.as_str());
    push_str(out, " | path_exists=");
    push_bool(out, f.path_exists);
    push_str(out, " | db_exists=");
    push_bool(out, f.database_exists);
    push_str(out, " | tags=");
    push_joined(out, &p.tags, ",");
    push_str(out, "\n  path: ");
    push_str(out, p.path.as_str());
    push_str(out, "\n  database: ");
    push_str(out, p.database.as_str());
    assert(out@ =~= start + project_entry(p@, f));
}

/// Lists the registered projects; `facts[i]` tells what exists on disk for
/// the `i`-th project.
pub fn list_projects(registry: &Registry, registry_path: &str, facts: &Vec<PathFacts>) -> (r:
    String)
    requires
        facts.len() == registry.projects.len(),
    ensures
        r@ == project_listing(registry@.projects, registry_path@, facts@),
{
    let ghost ps = registry@.projects;
    let mut out: Vec<char> = Vec::new();
    push_str(&mut out, "registry: ");
    push_str(&mut out, registry_path);
    if registry.projects.len() == 0 {
        push_str(&mut out, "\nprojects: none");
        return string_from_chars(&out);
    }
    push_str(&mut out, "\nprojects:");
    let ghost start = out@;
    let mut i: usize = 0;
    while i < registry.projects.len()
        invariant
            ps == projects_view(registry.projects@),
            facts.len() == registry.projects.len(),
            i <= registry.projects.len(),
            out@ == start + project_entries(ps.take(i as int), facts@.take(i as int)),
        decreases registry.projects.len() - i,
    {
        assert(ps.take(i + 1).drop_last() =~= ps.take(i as int));
        assert(facts@.take(i + 1).drop_last() =~= facts@.take(i as int));
        assert(ps[i as int] == registry.projects@[i as int]@);
        push_str(&mut out, "\n");
        push_project_entry(&mut out, &registry.projects[i], facts[i]);
        i += 1;
        assert(out@ =~= start + project_entries(ps.take(i as int), facts@.take(i as int)));
    }
    assert(ps.take(i as int) =~= ps);
    assert(facts@.take(i as int) =~= facts@);
    string_from_chars(&out)
}

/// The first project with this id (the number of projects when there is
/// none).
pub open spec fn project_index(ps: Seq<ProjectView>, pid: Seq<char>) -> nat
    decreases ps.len(),
{
    if ps.len() == 0 {
        0
    } else if ps[0].id == pid {
        0
    } else {
        1 + project_index(ps.drop_first(), pid)
    }
}

/// One project's status.
pub open spec fn status_text(p: ProjectView, f: PathFacts) -> Seq<char> {
    "project: "@ + p.id + "\nname: "@ + p.name + "\npath: "@ + p.path + "\npath_exists: "@
        + bool_text(f.path_exists) + "\ndatabase: "@ + p.database + "\ndatabase_exists: "@
        + bool_text(f.database_exists) + "\nb3_dir_exists: "@ + bool_text(f.b3_dir_exists)
        + "\ntags: "@ + joined_with(p.tags, ","@) + "\nlast_indexed_at: "@
        + match p.last_indexed_at {
        Some(t) => t,
        None => "unknown"@,
    }
}

fn find_project_index(projects: &Vec<crate::registry::RegistryProject>, pid: &str) -> (r: usize)
    ensures
        r == project_index(projects_view(projects@), pid@),
{
    let ghost ps = projects_view(projects@);
    let mut i: usize = 0;
    assert(ps.skip(0) =~= ps);
    while i < projects.len()
        invariant
            ps == projects_view(projects@),
            i <= projects.len(),
            project_index(ps, pid@) == i + project_index(ps.skip(i as int), pid@),
        decreases projects.len() - i,
    {
        assert(ps.skip(i as int)[0] == projects@[i as int]@);
        if str_eq(projects[i].id.as_str(), pid) {
            return i;
        }
        assert(ps.skip(i as int).drop_first() =~= ps.skip(i + 1));
        i += 1;
    }
    i
}

pub proof fn lemma_project_index_bound(ps: Seq<ProjectView>, pid: Seq<char>)
    ensures
        project_index(ps, pid) <= ps.len(),
        project_index(ps, pid) < ps.len() ==> ps[project_index(ps, pid) as int].id == pid,
    decreases ps.len(),
{
    if ps.len() > 0 && ps[0].id != pid {
        lemma_project_index_bound(ps.drop_first(), pid);
    }
}

/// The status of the first project with this id; `facts[i]` tells what
/// exists on disk for the `i`-th project.
pub fn project_status(registry: &Registry, project_id: &str, facts: &Vec<PathFacts>) -> (r:
    Result<String, String>)
    requires
        facts.len() == registry.projects.len(),
    ensures
        ({
            let i = project_index(registry@.projects, project_id@);
            if i < registry@.projects.len() {
                r is Ok && r->Ok_0@ == status_text(registry@.projects[i as int], facts@[i as int])
            } else {
                r is Err && r->Err_0@ == project_not_found(project_id@)
            }
        }),
{
    let i = find_project_index(&registry.projects, project_id);
    proof {
        lemma_project_index_bound(registry@.projects, project_id@);
    }
    if i == registry.projects.len() {
        let mut out: Vec<char> = Vec::new();
        push_str(&mut out, "project not found: ");
        push_str(&mut out, project_id);
        return Err(string_from_chars(&out));
    }
    let p = &registry.projects[i];
    let f = facts[i];
    assert(registry@.projects[i as int] == p@);
    let mut out: Vec<char> = Vec::new();
    push_str(&mut out, "project: ");
    push_str(&mut out, p.id.as_str());
    push_str(&mut out, "\nname: ");
    push_str(&mut out, p.name.as_str());
    push_str(&mut out, "\npath: ");
    push_str(&mut out, p.path.as_str());
    push_str(&mut out, "\npath_exists: ");
    push_bool(&mut out, f.path_exists);
    push_str(&mut out, "\ndatabase: ");
    push_str(&mut out, p.database.as_str());
    push_str(&mut out, "\ndatabase_exists: ");
    push_bool(&mut out, f.database_exists);
    push_str(&mut out, "\nb3_dir_exists: ");
    push_bool(&mut out, f.b3_dir_exists);
    push_str(&mut out, "\ntags: ");
    push_joined(&mut out, &p.tags, ",");
    push_str(&mut out, "\nlast_indexed_at: ");
    match &p.last_indexed_at {
        Some(t) => push_str(&mut out, t.as_str()),
        None => push_str(&mut out, "unknown"),
    }
    assert(out@ =~= status_text(p@, f));
    Ok(string_from_chars(&out))
}

/// A group's entry in the listing.
pub open spec fn group_entry(g: GroupView) -> Seq<char> {
    "\n- "@ + g.id + " | "@ + g.name + " | projects="@ + dec(g.project_ids.len()) + " | tags="@
        + joined_with(g.tags, ","@)
}

pub open spec fn group_entries(gs: Seq<GroupView>) -> Seq<char>
    decreases gs.len(),
{
    if gs.len() == 0 {
        Seq::empty()
    } else {
        group_entries(gs.drop_last()) + group_entry(gs.last())
    }
}

/// The group listing of a registry at `path`.
pub open spec fn group_listing(gs: Seq<GroupView>, path: Seq<char>) -> Seq<char> {
    if gs.len() == 0 {
        "registry: "@ + path + "\ngroups: none"@
    } else {
        "registry: "@ + path + "\ngroups:"@ + group_entries(gs)
    }
}

/// Lists the groups.
pub fn group_list(registry: &Registry, registry_path: &str) -> (r: String)
    ensures
        r@ == group_listing(registry@.groups, registry_path@),
{
    let ghost gs = registry@.groups;
    let mut out: Vec<char> = Vec::new();
    push_str(&mut out, "registry: ");
    push_str(&mut out, registry_path);
    if registry.groups.len() == 0 {
        push_str(&mut out, "\ngroups: none");
        return string_from_chars(&out);
    }
    push_str(&mut out, "\ngroups:");
    let ghost start = out@;
    let mut i: usize = 0;
    while i < registry.groups.len()
        invariant
            gs == groups_view(registry.groups@),
            i <= registry.groups.len(),
            out@ == start + group_entries(gs.take(i as int)),
        decreases registry.groups.len() - i,
    {
        assert(gs.take(i + 1).drop_last() =~= gs.take(i as int));
        let g = &registry.groups[i];
        assert(gs[i as int] == g@);
        push_str(&mut out, "\n- ");
        push_str(&mut out, g.id.as_str());
        push_str(&mut out, " | ");
        push_str(&mut out, g.name.as_str());
        push_str(&mut out, " | projects=");
        push_dec(&mut out, g.project_ids.len());
        push_str(&mut out, " | tags=");
        push_joined(&mut out, &g.tags, ",");
        i += 1;
        assert(out@ =~= start + group_entries(gs.take(i as int)));
    }
    assert(gs.take(i as int) =~= gs);
    string_from_chars(&out)
}

fn find_group_index(groups: &Vec<crate::registry::RegistryGroup>, gid: &str) -> (r: usize)
    ensures
        r == group_index(groups_view(groups@), gid@),
{
    let ghost gs = groups_view(groups@);
    let mut i: usize = 0;
    assert(gs.skip(0) =~= gs);
    while i < groups.len()
        invariant
            gs == groups_view(groups@),
            i <= groups.len(),
            group_index(gs, gid@) == i + group_index(gs.skip(i as int), gid@),
        decreases groups.len() - i,
    {
        assert(gs.skip(i as int)[0] == groups@[i as int]@);
        if str_eq(groups[i].id.as_str(), gid) {
            return i;
        }
        assert(gs.skip(i as int).drop_first() =~= gs.skip(i + 1));
        i += 1;
    }
    i
}

pub proof fn lemma_group_index_bound(gs: Seq<GroupView>, gid: Seq<char>)
    ensures
        group_index(gs, gid) <= gs.len(),
    decreases gs.len(),
{
    if gs.len() > 0 && gs[0].id != gid {
        lemma_group_index_bound(gs.drop_first(), gid);
    }
}

/// A member's line in a group's status.
pub open spec fn member_line(ps: Seq<ProjectView>, fs: Seq<PathFacts>, pid: Seq<char>) -> Seq<
    char,
> {
    let i = project_index(ps, pid);
    if i < ps.len() {
        "\n- "@ + ps[i as int].id + " | "@ + ps[i as int].name + " | path_exists="@ + bool_text(
            fs[i as int].path_exists,
        ) + " | db_exists="@ + bool_text(fs[i as int].database_exists)
    } else {
        "\n- "@ + pid + " | missing registry project"@
    }
}

pub open spec fn member_lines(ps: Seq<ProjectView>, fs: Seq<PathFacts>, ids: Seq<Seq<char>>) -> Seq<
    char,
>
    decreases ids.len(),
{
    if ids.len() == 0 {
        Seq::empty()
    } else {
        member_lines(ps, fs, ids.drop_last()) + member_line(ps, fs, ids.last())
    }
}

/// One group's status.
pub open spec fn group_status_text(g: GroupView, ps: Seq<ProjectView>, fs: Seq<PathFacts>) -> Seq<
    char,
> {
    "group: "@ + g.id + "\nname: "@ + g.name + "\ndescription: "@ + g.description + "\ntags: "@
        + joined_with(g.tags, ","@) + "\nprojects:"@ + member_lines(ps, fs, g.project_ids)
}

/// The status of the first group with this id: its details and each
/// member's project, or a note that the project is no longer registered.
pub fn group_status(registry: &Registry, group_id: &str, facts: &Vec<PathFacts>) -> (r: Result<
    String,
    String,
>)
    requires
        facts.len() == registry.projects.len(),
    ensures
        ({
            let i = group_index(registry@.groups, group_id@);
            if i < registry@.groups.len() {
                r is Ok && r->Ok_0@ == group_status_text(
                    registry@.groups[i as int],
                    registry@.projects,
                    facts@,
                )
            } else {
                r is Err && r->Err_0@ == group_not_found(group_id@)
            }
        }),
{
    let ghost gs = registry@.groups;
    let gi = find_group_index(&registry.groups, group_id);
    proof {
        lemma_group_index_bound(gs, group_id@);
    }
    if gi == registry.groups.len() {
        let mut out: Vec<char> = Vec::new();
        push_str(&mut out, "group not found: ");
        push_str(&mut out, group_id);
        return Err(string_from_chars(&out));
    }
    let g = &registry.groups[gi];
    assert(gs[gi as int] == g@);
    let ghost ps = registry@.projects;
    let mut out: Vec<char> = Vec::new();
    push_str(&mut out, "group: ");
    push_str(&mut out, g.id.as_str());
    push_str(&mut out, "\nname: ");
    push_str(&mut out, g.name.as_str());
    push_str(&mut out, "\ndescription: ");
    push_str(&mut out, g.description.as_str());
    push_str(&mut out, "\ntags: ");
    push_joined(&mut out, &g.tags, ",");
    push_str(&mut out, "\nprojects:");
    let ghost start = out@;
    let ghost ids = g@.project_ids;
    let mut k: usize = 0;
    while k < g.project_ids.len()
        invariant
            ids == g@.project_ids,
            ps == projects_view(registry.projects@),
            facts.len() == registry.projects.len(),
            k <= g.project_ids.len(),
            out@ == start + member_lines(ps, facts@, ids.take(k as int)),
        decreases g.project_ids.len() - k,
    {
        assert(ids.take(k + 1).drop_last() =~= ids.take(k as int));
        let pid = g.project_ids[k].as_str();
        assert(ids[k as int] == pid@);
        let pi = find_project_index(&registry.projects, pid);
        proof {
            lemma_project_index_bound(ps, pid@);
        }
        let ghost before = out@;
        if pi < registry.projects.len() {
            let p = &registry.projects[pi];
            assert(ps[pi as int] == p@);
            push_str(&mut out, "\n- ");
            push_str(&mut out, p.id.as_str());
            push_str(&mut out, " | ");
            push_str(&mut out, p.name.as_str());
            push_str(&mut out, " | path_exists=");
            push_bool(&mut out, facts[pi].path_exists);
            push_str(&mut out, " | db_exists=");
            push_bool(&mut out, facts[pi].database_exists);
        } else {
            push_str(&mut out, "\n- ");
            push_str(&mut out, pid);
            push_str(&mut out, " | missing registry project");
        }
        assert(out@ =~= before + member_line(ps, facts@, pid@));
        k += 1;
        assert(out@ =~= start + member_lines(ps, facts@, ids.take(k as int)));
    }
    assert(ids.take(k as int) =~= ids);
    assert(out@ =~= group_status_text(gs[gi as int], ps, facts@));
    Ok(string_from_chars(&out))
}

} // verus!
