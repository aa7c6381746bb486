//! Changes to the registry: registering and unregistering projects, and
//! creating groups and changing their members.
use vstd::prelude::*;

use crate::line_set::{lt_vec, seq_lt};
use crate::paths::{
    absolute, absolute_path, file_name_of, join, join_path, opt_view, path_file_name,
};
use crate::registry::{
    group_id, groups_view, id_error, lemma_insert_at, project_id, projects_view, same_path,
    same_path_text, slug, slugify, sort_by_key, validate_registry_id, GroupCreateOptions,
    GroupMembershipOptions, GroupView, ProjectView, RegisterOptions, Registry, RegistryGroup,
    RegistryProject, RegistryView,
};
use crate::setup::{next_steps, next_steps_text};
use crate::text::{chars_of, push_str, str_eq, string_from_chars, strings_view};

verus! {

broadcast use vstd::string::group_string_axioms;

// ---------------------------------------------------------------------------
// Copies
// ---------------------------------------------------------------------------

pub fn clone_strings(v: &Vec<String>) -> (r: Vec<String>)
    ensures
        r@ == v@,
{
    let mut r: Vec<String> = Vec::new();
    let mut i: usize = 0;
    while i < v.len()
        invariant
            i <= v.len(),
            r@ == v@.take(i as int),
        decreases v.len() - i,
    {
        r.push(v[i].clone());
        i += 1;
        assert(r@ =~= v@.take(i as int));
    }
    assert(v@.take(i as int) =~= v@);
    r
}

pub fn clone_opt(o: &Option<String>) -> (r: Option<String>)
    ensures
        r == *o,
{
    match o {
        Some(s) => Some(s.clone()),
        None => None,
    }
}

pub fn clone_project(p: &RegistryProject) -> (r: RegistryProject)
    ensures
        r@ == p@,
{
    RegistryProject {
        id: p.id.clone(),
        name: p.name.clone(),
        path: p.path.clone(),
        database: p.database.clone(),
        tags: clone_strings(&p.tags),
        created_at: p.created_at.clone(),
        updated_at: p.updated_at.clone(),
        last_indexed_at: clone_opt(&p.last_indexed_at),
        notes: clone_opt(&p.notes),
    }
}

pub fn clone_group(g: &RegistryGroup) -> (r: RegistryGroup)
    ensures
        r@ == g@,
{
    RegistryGroup {
        id: g.id.clone(),
        name: g.name.clone(),
        description: g.description.clone(),
        project_ids: clone_strings(&g.project_ids),
        tags: clone_strings(&g.tags),
        created_at: g.created_at.clone(),
        updated_at: g.updated_at.clone(),
    }
}

/// Whether `a` sorts before `b`.
pub fn str_lt(a: &str, b: &str) -> (r: bool)
    ensures
        r == seq_lt(a@, b@),
{
    lt_vec(&chars_of(a), &chars_of(b))
}

// ---------------------------------------------------------------------------
// Sorting by id
// ---------------------------------------------------------------------------

/// Orders projects by id, keeping the order of projects with equal ids.
pub fn sort_projects(v: &Vec<RegistryProject>) -> (r: Vec<RegistryProject>)
    ensures
        projects_view(r@) == sort_by_key(projects_view(v@), project_id()),
{
    let ghost vs = projects_view(v@);
    let mut r: Vec<RegistryProject> = Vec::new();
    let mut i: usize = 0;
    assert(projects_view(r@) =~= sort_by_key(vs.take(0), project_id()));
    while i < v.len()
        invariant
            vs == projects_view(v@),
            i <= v.len(),
            projects_view(r@) == sort_by_key(vs.take(i as int), project_id()),
        decreases v.len() - i,
    {
        let x = clone_project(&v[i]);
        assert(x@ == vs[i as int]);
        let ghost rs = projects_view(r@);
        let mut j: usize = r.len();
        while j > 0 && str_lt(x.id.as_str(), r[j - 1].id.as_str())
            invariant
                rs == projects_view(r@),
                j <= r.len(),
                forall|k: int| j <= k < rs.len() ==> seq_lt(x@.id, #[trigger] rs[k].id),
            decreases j,
        {
            assert(rs[j - 1] == r@[j - 1]@);
            j -= 1;
        }
        proof {
            if j > 0 {
                assert(rs[j - 1] == r@[j - 1]@);
            }
            lemma_insert_at(rs, x@, project_id(), j as int);
            assert(vs.take(i + 1).drop_last() =~= vs.take(i as int));
        }
        r.insert(j, x);
        assert(projects_view(r@) =~= rs.insert(j as int, vs[i as int]));
        i += 1;
    }
    assert(vs.take(i as int) =~= vs);
    r
}

/// Orders groups by id, keeping the order of groups with equal ids.
pub fn sort_groups(v: &Vec<RegistryGroup>) -> (r: Vec<RegistryGroup>)
    ensures
        groups_view(r@) == sort_by_key(groups_view(v@), group_id()),
{
    let ghost vs = groups_view(v@);
    let mut r: Vec<RegistryGroup> = Vec::new();
    let mut i: usize = 0;
    assert(groups_view(r@) =~= sort_by_key(vs.take(0), group_id()));
    while i < v.len()
        invariant
            vs == groups_view(v@),
            i <= v.len(),
            groups_view(r@) == sort_by_key(vs.take(i as int), group_id()),
        decreases v.len() - i,
    {
        let x = clone_group(&v[i]);
        assert(x@ == vs[i as int]);
        let ghost rs = groups_view(r@);
        let mut j: usize = r.len();
        while j > 0 && str_lt(x.id.as_str(), r[j - 1].id.as_str())
            invariant
                rs == groups_view(r@),
                j <= r.len(),
                forall|k: int| j <= k < rs.len() ==> seq_lt(x@.id, #[trigger] rs[k].id),
            decreases j,
        {
            assert(rs[j - 1] == r@[j - 1]@);
            j -= 1;
        }
        proof {
            if j > 0 {
                assert(rs[j - 1] == r@[j - 1]@);
            }
            lemma_insert_at(rs, x@, group_id(), j as int);
            assert(vs.take(i + 1).drop_last() =~= vs.take(i as int));
        }
        r.insert(j, x);
        assert(groups_view(r@) =~= rs.insert(j as int, vs[i as int]));
        i += 1;
    }
    assert(vs.take(i as int) =~= vs);
    r
}

// ---------------------------------------------------------------------------
// Register
// ---------------------------------------------------------------------------

/// The project's path, made absolute.
pub open spec fn reg_project_path(o: RegisterOptions, cwd: Seq<char>) -> Seq<char> {
    absolute(o.project_path@, cwd)
}

/// The database path: the one given, made absolute, else `.b3/b3.db` in
/// the project.
pub open spec fn reg_database(o: RegisterOptions, cwd: Seq<char>) -> Seq<char> {
    match o.database_path {
        Some(d) => absolute(d@, cwd),
        None => join(join(reg_project_path(o, cwd), ".b3"@), "b3.db"@),
    }
}

/// The name: the one given, else the project directory's name, else
/// `"project"`.
pub open spec fn reg_name(o: RegisterOptions, cwd: Seq<char>) -> Seq<char> {
    match o.name {
        Some(n) => n@,
        None => match path_file_name(reg_project_path(o, cwd)) {
            Some(f) => f,
            None => "project"@,
        },
    }
}

/// The id: the one given, else made from the name.
pub open spec fn reg_id(o: RegisterOptions, cwd: Seq<char>) -> Seq<char> {
    match o.id {
        Some(i) => i@,
        None => slug(reg_name(o, cwd)),
    }
}

/// Where the first project with this id or this path stands (the number of
/// projects when there is none).
pub open spec fn match_index(ps: Seq<ProjectView>, id: Seq<char>, path: Seq<char>) -> nat
    decreases ps.len(),
{
    if ps.len() == 0 {
        0
    } else if ps[0].id == id || same_path(ps[0].path, path) {
        0
    } else {
        1 + match_index(ps.drop_first(), id, path)
    }
}

/// The entry written for a registration, over `prior` when it updates one.
pub open spec fn reg_entry(
    o: RegisterOptions,
    cwd: Seq<char>,
    now: Seq<char>,
    prior: Option<ProjectView>,
) -> ProjectView {
    ProjectView {
        id: reg_id(o, cwd),
        name: reg_name(o, cwd),
        path: reg_project_path(o, cwd),
        database: reg_database(o, cwd),
        tags: strings_view(o.tags@),
        created_at: match prior {
            Some(p) => p.created_at,
            None => now,
        },
        updated_at: now,
        last_indexed_at: match prior {
            Some(p) => p.last_indexed_at,
            None => None,
        },
        notes: match opt_view(o.notes) {
            Some(n) => Some(n),
            None => match prior {
                Some(p) => p.notes,
                None => None,
            },
        },
    }
}

/// The refusal of a registration that matches an existing project.
pub open spec fn already_registered_text() -> Seq<char> {
    "project already exists; pass --update to update the existing registry entry"@
}

/// The registry after a registration, or why it is refused.
pub open spec fn register_outcome(
    reg: RegistryView,
    o: RegisterOptions,
    cwd: Seq<char>,
    now: Seq<char>,
) -> Result<RegistryView, Seq<char>> {
    let id = reg_id(o, cwd);
    match id_error(id) {
        Some(e) => Err(e),
        None => {
            let i = match_index(reg.projects, id, reg_project_path(o, cwd));
            if i < reg.projects.len() && !o.update {
                Err(already_registered_text())
            } else {
                let ps = if i < reg.projects.len() {
                    reg.projects.update(i as int, reg_entry(o, cwd, now, Some(reg.projects[i as int])))
                } else {
                    reg.projects.push(reg_entry(o, cwd, now, None))
                };
                Ok(
                    RegistryView {
                        version: reg.version,
                        projects: sort_by_key(ps, project_id()),
                        groups: reg.groups,
                        created_at: reg.created_at,
                        updated_at: now,
                    },
                )
            }
        },
    }
}

/// The report of a registration.
pub open spec fn register_message(o: RegisterOptions, cwd: Seq<char>) -> Seq<char> {
    let project = reg_project_path(o, cwd);
    let database = reg_database(o, cwd);
    "registered project: "@ + reg_id(o, cwd) + "\nname: "@ + reg_name(o, cwd) + "\nregistry: "@
        + o.registry_path@ + "\n"@ + next_steps_text(project, database)
        + "\ninstall next step:\n  b3 install --agent codex --project \""@ + project
        + "\" --database \""@ + database + "\" --profile optimized --dry-run"@
}

/// Where the first project with this id or path stands.
fn find_match(projects: &Vec<RegistryProject>, id: &String, path: &String) -> (r: usize)
    ensures
        r == match_index(projects_view(projects@), id@, path@),
{
    let ghost ps = projects_view(projects@);
    let mut i: usize = 0;
    assert(ps.skip(0) =~= ps);
    while i < projects.len()
        invariant
            ps == projects_view(projects@),
            i <= projects.len(),
            match_index(ps, id@, path@) == i + match_index(ps.skip(i as int), id@, path@),
        decreases projects.len() - i,
    {
        assert(ps.skip(i as int)[0] == projects@[i as int]@);
        if projects[i].id == *id || same_path_text(projects[i].path.as_str(), path.as_str()) {
            return i;
        }
        assert(ps.skip(i as int).drop_first() =~= ps.skip(i + 1));
        i += 1;
    }
    i
}

/// Registers a project, or updates its entry when `update` is set: the
/// entry matches an existing one by id or by path (ignoring ASCII case).
/// Projects stay ordered by id. `cwd` is the working directory relative
/// paths are taken against; `now` stamps the change;
/// `project_exists` tells whether the project path exists, and a project
/// that does not is refused before anything else. Returns the new
/// registry and the report.
pub fn register_project(
    registry: Registry,
    options: &RegisterOptions,
    project_exists: bool,
    cwd: &str,
    now: &str,
) -> (r: Result<(Registry, String), String>)
    ensures
        if !project_exists {
            r is Err && r->Err_0@ == "project path does not exist: "@ + options.project_path@
        } else {
            match register_outcome(registry@, *options, cwd@, now@) {
                Ok(v) => r is Ok && r->Ok_0.0@ == v && r->Ok_0.1@ == register_message(*options, cwd@),
                Err(e) => r is Err && r->Err_0@ == e,
            }
        },
{
    if !project_exists {
        let mut msg: Vec<char> = Vec::new();
        push_str(&mut msg, "project path does not exist: ");
        push_str(&mut msg, options.project_path.as_str());
        return Err(string_from_chars(&msg));
    }
    let project = absolute_path(options.project_path.as_str(), cwd);
    let database = match &options.database_path {
        Some(d) => absolute_path(d.as_str(), cwd),
        None => {
            let dir = join_path(project.as_str(), ".b3");
            join_path(dir.as_str(), "b3.db")
        },
    };
    let name = match &options.name {
        Some(n) => n.clone(),
        None => match file_name_of(project.as_str()) {
            Some(f) => f,
            None => "project".to_owned(),
        },
    };
    let id = match &options.id {
        Some(i) => i.clone(),
        None => slugify(name.as_str()),
    };
    assert(id@ == reg_id(*options, cwd@));
    match validate_registry_id(id.as_str()) {
        Ok(()) => {},
        Err(e) => {
            return Err(e);
        },
    }
    let ghost old_view = registry@;
    let index = find_match(&registry.projects, &id, &project);
    if index < registry.projects.len() && !options.update {
        return Err(
            "project already exists; pass --update to update the existing registry entry".to_owned(),
        );
    }
    let Registry { version, projects, groups, created_at, updated_at: _ } = registry;
    let mut projects = projects;
    if index < projects.len() {
        let prior = &projects[index];
        let notes = match &options.notes {
            Some(n) => Some(n.clone()),
            None => clone_opt(&prior.notes),
        };
        let entry = RegistryProject {
            id: id.clone(),
            name: name.clone(),
            path: project.clone(),
            database: database.clone(),
            tags: clone_strings(&options.tags),
            created_at: prior.created_at.clone(),
            updated_at: now.to_owned(),
            last_indexed_at: clone_opt(&prior.last_indexed_at),
            notes,
        };
        assert(entry@ == reg_entry(*options, cwd@, now@, Some(old_view.projects[index as int])));
        let ghost before = projects_view(projects@);
        projects.set(index, entry);
        assert(projects_view(projects@) =~= before.update(
            index as int,
            reg_entry(*options, cwd@, now@, Some(old_view.projects[index as int])),
        ));
    } else {
        let entry = RegistryProject {
            id: id.clone(),
            name: name.clone(),
            path: project.clone(),
            database: database.clone(),
            tags: clone_strings(&options.tags),
            created_at: now.to_owned(),
            updated_at: now.to_owned(),
            last_indexed_at: None,
            notes: clone_opt(&options.notes),
        };
        assert(entry@ == reg_entry(*options, cwd@, now@, None));
        let ghost before = projects_view(projects@);
        projects.push(entry);
        assert(projects_view(projects@) =~= before.push(reg_entry(*options, cwd@, now@, None)));
    }
    let sorted = sort_projects(&projects);
    let result = Registry { version, projects: sorted, groups, created_at, updated_at: now.to_owned() };
    let mut out: Vec<char> = Vec::new();
    push_str(&mut out, "registered project: ");
    push_str(&mut out, id.as_str());
    push_str(&mut out, "\nname: ");
    push_str(&mut out, name.as_str());
    push_str(&mut out, "\nregistry: ");
    push_str(&mut out, options.registry_path.as_str());
    push_str(&mut out, "\n");
    let steps = next_steps(project.as_str(), database.as_str());
    push_str(&mut out, steps.as_str());
    push_str(&mut out, "\ninstall next step:\n  b3 install --agent codex --project \"");
    push_str(&mut out, project.as_str());
    push_str(&mut out, "\" --database \"");
    push_str(&mut out, database.as_str());
    push_str(&mut out, "\" --profile optimized --dry-run");
    assert(out@ =~= register_message(*options, cwd@));
    Ok((result, string_from_chars(&out)))
}

// ---------------------------------------------------------------------------
// Unregister
// ---------------------------------------------------------------------------

/// The projects whose id is not `pid`.
pub open spec fn other_projects(pid: Seq<char>) -> spec_fn(ProjectView) -> bool {
    |p: ProjectView| p.id != pid
}

/// The ids other than `pid`.
pub open spec fn other_ids(pid: Seq<char>) -> spec_fn(Seq<char>) -> bool {
    |x: Seq<char>| x != pid
}

/// A group with `pid` taken out of its members, stamped `now`.
pub open spec fn without_member(g: GroupView, pid: Seq<char>, now: Seq<char>) -> GroupView {
    GroupView {
        id: g.id,
        name: g.name,
        description: g.description,
        project_ids: g.project_ids.filter(other_ids(pid)),
        tags: g.tags,
        created_at: g.created_at,
        updated_at: now,
    }
}

pub open spec fn groups_without(gs: Seq<GroupView>, pid: Seq<char>, now: Seq<char>) -> Seq<
    GroupView,
> {
    gs.map_values(|g: GroupView| without_member(g, pid, now))
}

/// Whether a project with this id is registered.
pub open spec fn has_project(reg: RegistryView, pid: Seq<char>) -> bool {
    exists|k: int| 0 <= k < reg.projects.len() && (#[trigger] reg.projects[k]).id == pid
}

pub open spec fn project_not_found(pid: Seq<char>) -> Seq<char> {
    "project not found: "@ + pid
}

/// The registry after removing a project (and its group memberships), or
/// why that is refused.
pub open spec fn unregister_outcome(reg: RegistryView, pid: Seq<char>, now: Seq<char>) -> Result<
    RegistryView,
    Seq<char>,
> {
    match id_error(pid) {
        Some(e) => Err(e),
        None => if !has_project(reg, pid) {
            Err(project_not_found(pid))
        } else {
            Ok(
                RegistryView {
                    version: reg.version,
                    projects: reg.projects.filter(other_projects(pid)),
                    groups: groups_without(reg.groups, pid, now),
                    created_at: reg.created_at,
                    updated_at: now,
                },
            )
        },
    }
}

pub open spec fn unregister_dry_run_text(pid: Seq<char>) -> Seq<char> {
    "unregister project: "@ + pid + "\nmode: dry-run\nregistry unchanged; rerun with --apply"@
}

pub open spec fn unregistered_text(pid: Seq<char>, backup: Option<Seq<char>>) -> Seq<char> {
    "unregistered project: "@ + pid + "\nmode: applied\nbackup: "@ + match backup {
        Some(b) => b,
        None => "none"@,
    }
}

proof fn lemma_filter_step<T>(s: Seq<T>, pred: spec_fn(T) -> bool, i: int)
    requires
        0 <= i < s.len(),
    ensures
        s.take(i + 1).filter(pred) == (if pred(s[i]) {
            s.take(i).filter(pred).push(s[i])
        } else {
            s.take(i).filter(pred)
        }),
{
    reveal(Seq::filter);
    assert(s.take(i + 1).drop_last() =~= s.take(i));
}

fn find_project(projects: &Vec<RegistryProject>, pid: &str) -> (r: usize)
    ensures
        r <= projects.len(),
        r < projects.len() ==> projects@[r as int]@.id == pid@,
        r == projects.len() ==> forall|k: int|
            0 <= k < projects.len() ==> (#[trigger] projects@[k])@.id != pid@,
{
    let mut i: usize = 0;
    while i < projects.len()
        invariant
            i <= projects.len(),
            forall|k: int| 0 <= k < i ==> (#[trigger] projects@[k])@.id != pid@,
        decreases projects.len() - i,
    {
        if str_eq(projects[i].id.as_str(), pid) {
            return i;
        }
        i += 1;
    }
    i
}

/// The group with `pid` taken out of its members, stamped `now`.
fn remove_member(g: &RegistryGroup, pid: &str, now: &str) -> (r: RegistryGroup)
    ensures
        r@ == without_member(g@, pid@, now@),
{
    let ghost ids = strings_view(g.project_ids@);
    let mut kept: Vec<String> = Vec::new();
    let mut k: usize = 0;
    proof {
        reveal(Seq::filter);
        assert(ids.take(0) =~= Seq::<Seq<char>>::empty());
    }
    assert(strings_view(kept@) =~= ids.take(0).filter(other_ids(pid@)));
    while k < g.project_ids.len()
        invariant
            ids == strings_view(g.project_ids@),
            k <= g.project_ids.len(),
            strings_view(kept@) == ids.take(k as int).filter(other_ids(pid@)),
        decreases g.project_ids.len() - k,
    {
        proof {
            lemma_filter_step(ids, other_ids(pid@), k as int);
        }
        assert(ids[k as int] == g.project_ids@[k as int]@);
        if !str_eq(g.project_ids[k].as_str(), pid) {
            let ghost before = strings_view(kept@);
            kept.push(g.project_ids[k].clone());
            assert(strings_view(kept@) =~= before.push(ids[k as int]));
        }
        k += 1;
    }
    assert(ids.take(k as int) =~= ids);
    RegistryGroup {
        id: g.id.clone(),
        name: g.name.clone(),
        description: g.description.clone(),
        project_ids: kept,
        tags: clone_strings(&g.tags),
        created_at: g.created_at.clone(),
        updated_at: now.to_owned(),
    }
}

/// Removes `pid` from every group's members, stamping each group `now`.
fn strip_members(groups: &Vec<RegistryGroup>, pid: &str, now: &str) -> (r: Vec<RegistryGroup>)
    ensures
        groups_view(r@) == groups_without(groups_view(groups@), pid@, now@),
{
    let ghost gs = groups_view(groups@);
    let mut r: Vec<RegistryGroup> = Vec::new();
    let mut i: usize = 0;
    while i < groups.len()
        invariant
            gs == groups_view(groups@),
            i <= groups.len(),
            groups_view(r@) == groups_without(gs.take(i as int), pid@, now@),
        decreases groups.len() - i,
    {
        let updated = remove_member(&groups[i], pid, now);
        assert(gs[i as int] == groups@[i as int]@);
        let ghost before = groups_view(r@);
        r.push(updated);
        assert(groups_view(r@) =~= before.push(updated@));
        assert(groups_without(gs.take(i + 1), pid@, now@) =~= groups_without(
            gs.take(i as int),
            pid@,
            now@,
        ).push(without_member(gs[i as int], pid@, now@)));
        i += 1;
    }
    assert(gs.take(i as int) =~= gs);
    r
}

/// Removes a registered project and its group memberships. With `apply`
/// unset nothing changes and the returned report says what would happen;
/// with it set the returned registry is the one to write, and no report is
/// returned until it is written (see `unregistered_message`).
pub fn unregister_project(
    registry: Registry,
    project_id: &str,
    apply: bool,
    now: &str,
) -> (r: Result<(Registry, Option<String>), String>)
    ensures
        match unregister_outcome(registry@, project_id@, now@) {
            Ok(v) => r is Ok && (if apply {
                r->Ok_0.0@ == v && r->Ok_0.1 is None
            } else {
                r->Ok_0.0@ == registry@ && r->Ok_0.1 is Some && r->Ok_0.1->Some_0@
                    == unregister_dry_run_text(project_id@)
            }),
            Err(e) => r is Err && r->Err_0@ == e,
        },
{
    match validate_registry_id(project_id) {
        Ok(()) => {},
        Err(e) => {
            return Err(e);
        },
    }
    let found = find_project(&registry.projects, project_id);
    if found == registry.projects.len() {
        proof {
            if has_project(registry@, project_id@) {
                let k = choose|k: int|
                    0 <= k < registry@.projects.len() && (#[trigger] registry@.projects[k]).id
                        == project_id@;
                assert(registry.projects@[k]@.id != project_id@);
            }
        }
        let mut out: Vec<char> = Vec::new();
        push_str(&mut out, "project not found: ");
        push_str(&mut out, project_id);
        return Err(string_from_chars(&out));
    }
    assert(registry@.projects[found as int] == registry.projects@[found as int]@);
    if !apply {
        let mut out: Vec<char> = Vec::new();
        push_str(&mut out, "unregister project: ");
        push_str(&mut out, project_id);
        push_str(&mut out, "\nmode: dry-run\nregistry unchanged; rerun with --apply");
        assert(out@ =~= unregister_dry_run_text(project_id@));
        return Ok((registry, Some(string_from_chars(&out))));
    }
    let ghost ps = registry@.projects;
    let mut kept: Vec<RegistryProject> = Vec::new();
    let mut i: usize = 0;
    proof {
        reveal(Seq::filter);
        assert(ps.take(0) =~= Seq::<ProjectView>::empty());
    }
    assert(projects_view(kept@) =~= ps.take(0).filter(other_projects(project_id@)));
    while i < registry.projects.len()
        invariant
            ps == projects_view(registry.projects@),
            i <= registry.projects.len(),
            projects_view(kept@) == ps.take(i as int).filter(other_projects(project_id@)),
        decreases registry.projects.len() - i,
    {
        proof {
            lemma_filter_step(ps, other_projects(project_id@), i as int);
        }
        assert(ps[i as int] == registry.projects@[i as int]@);
        if !str_eq(registry.projects[i].id.as_str(), project_id) {
            let ghost before = projects_view(kept@);
            let p = clone_project(&registry.projects[i]);
            kept.push(p);
            assert(projects_view(kept@) =~= before.push(ps[i as int]));
        }
        i += 1;
    }
    assert(ps.take(i as int) =~= ps);
    let groups = strip_members(&registry.groups, project_id, now);
    let result = Registry {
        version: registry.version,
        projects: kept,
        groups,
        created_at: registry.created_at,
        updated_at: now.to_owned(),
    };
    Ok((result, None))
}

/// The report of an applied unregistration, naming the backup written, if
/// any.
pub fn unregistered_message(project_id: &str, backup: Option<&str>) -> (r: String)
    ensures
        r@ == unregistered_text(
            project_id@,
            match backup {
                Some(b) => Some(b@),
                None => None,
            },
        ),
{
    let mut out: Vec<char> = Vec::new();
    push_str(&mut out, "unregistered project: ");
    push_str(&mut out, project_id);
    push_str(&mut out, "\nmode: applied\nbackup: ");
    match backup {
        Some(b) => push_str(&mut out, b),
        None => push_str(&mut out, "none"),
    }
    assert(out@ =~= unregistered_text(
        project_id@,
        match backup {
            Some(b) => Some(b@),
            None => None,
        },
    ));
    string_from_chars(&out)
}

// ---------------------------------------------------------------------------
// Groups
// ---------------------------------------------------------------------------

/// The id of a new group: the one given, else made from the name.
pub open spec fn new_group_id(o: GroupCreateOptions) -> Seq<char> {
    match o.id {
        Some(i) => i@,
        None => slug(o.name@),
    }
}

/// Whether a group with this id exists.
pub open spec fn has_group(reg: RegistryView, gid: Seq<char>) -> bool {
    exists|k: int| 0 <= k < reg.groups.len() && (#[trigger] reg.groups[k]).id == gid
}

/// The registry after creating a group, or why that is refused.
pub open spec fn group_create_outcome(
    reg: RegistryView,
    o: GroupCreateOptions,
    now: Seq<char>,
) -> Result<RegistryView, Seq<char>> {
    let id = new_group_id(o);
    match id_error(id) {
        Some(e) => Err(e),
        None => if has_group(reg, id) {
            Err("group already exists: "@ + id)
        } else {
            let g = GroupView {
                id,
                name: o.name@,
                description: o.description@,
                project_ids: Seq::empty(),
                tags: strings_view(o.tags@),
                created_at: now,
                updated_at: now,
            };
            Ok(
                RegistryView {
                    version: reg.version,
                    projects: reg.projects,
                    groups: sort_by_key(reg.groups.push(g), group_id()),
                    created_at: reg.created_at,
                    updated_at: now,
                },
            )
        },
    }
}

fn find_group(groups: &Vec<RegistryGroup>, gid: &str) -> (r: usize)
    ensures
        r <= groups.len(),
        r < groups.len() ==> groups@[r as int]@.id == gid@,
        forall|k: int| 0 <= k < r ==> (#[trigger] groups@[k])@.id != gid@,
{
    let mut i: usize = 0;
    while i < groups.len()
        invariant
            i <= groups.len(),
            forall|k: int| 0 <= k < i ==> (#[trigger] groups@[k])@.id != gid@,
        decreases groups.len() - i,
    {
        if str_eq(groups[i].id.as_str(), gid) {
            return i;
        }
        i += 1;
    }
    i
}

/// Creates an empty group; groups stay ordered by id. Returns the new
/// registry and the report.
pub fn group_create(registry: Registry, options: &GroupCreateOptions, now: &str) -> (r: Result<
    (Registry, String),
    String,
>)
    ensures
        match group_create_outcome(registry@, *options, now@) {
            Ok(v) => r is Ok && r->Ok_0.0@ == v && r->Ok_0.1@ == "created group: "@ + new_group_id(
                *options,
            ) + "\nregistry: "@ + options.registry_path@,
            Err(e) => r is Err && r->Err_0@ == e,
        },
{
    let id = match &options.id {
        Some(i) => i.clone(),
        None => slugify(options.name.as_str()),
    };
    match validate_registry_id(id.as_str()) {
        Ok(()) => {},
        Err(e) => {
            return Err(e);
        },
    }
    let found = find_group(&registry.groups, id.as_str());
    if found < registry.groups.len() {
        assert(registry@.groups[found as int] == registry.groups@[found as int]@);
        let mut out: Vec<char> = Vec::new();
        push_str(&mut out, "group already exists: ");
        push_str(&mut out, id.as_str());
        return Err(string_from_chars(&out));
    }
    proof {
        if has_group(registry@, id@) {
            let k = choose|k: int|
                0 <= k < registry@.groups.len() && (#[trigger] registry@.groups[k]).id == id@;
            assert(registry.groups@[k]@.id != id@);
        }
    }
    let group = RegistryGroup {
        id: id.clone(),
        name: options.name.clone(),
        description: options.description.clone(),
        project_ids: Vec::new(),
        tags: clone_strings(&options.tags),
        created_at: now.to_owned(),
        updated_at: now.to_owned(),
    };
    assert(group@.project_ids =~= Seq::<Seq<char>>::empty());
    let Registry { version, projects, groups, created_at, updated_at: _ } = registry;
    let mut groups = groups;
    let ghost before = groups_view(groups@);
    groups.push(group);
    assert(groups_view(groups@) =~= before.push(group@));
    let sorted = sort_groups(&groups);
    let result = Registry { version, projects, groups: sorted, created_at, updated_at: now.to_owned() };
    let mut out: Vec<char> = Vec::new();
    push_str(&mut out, "created group: ");
    push_str(&mut out, id.as_str());
    push_str(&mut out, "\nregistry: ");
    push_str(&mut out, options.registry_path.as_str());
    Ok((result, string_from_chars(&out)))
}

/// The first group with this id (the number of groups when there is none).
pub open spec fn group_index(gs: Seq<GroupView>, gid: Seq<char>) -> nat
    decreases gs.len(),
{
    if gs.len() == 0 {
        0
    } else if gs[0].id == gid {
        0
    } else {
        1 + group_index(gs.drop_first(), gid)
    }
}

/// `r` is the first position of a group with id `gid`, or the end.
pub proof fn lemma_group_index(gs: Seq<GroupView>, gid: Seq<char>, r: int)
    requires
        0 <= r <= gs.len(),
        r < gs.len() ==> gs[r].id == gid,
        forall|k: int| 0 <= k < r ==> (#[trigger] gs[k]).id != gid,
    ensures
        group_index(gs, gid) == r,
    decreases r,
{
    if r > 0 {
        assert(gs[0].id != gid);
        assert forall|k: int| 0 <= k < r - 1 implies (#[trigger] gs.drop_first()[k]).id != gid by {
            assert(gs.drop_first()[k] == gs[k + 1]);
        }
        lemma_group_index(gs.drop_first(), gid, r - 1);
    }
}

pub open spec fn group_not_found(gid: Seq<char>) -> Seq<char> {
    "group not found: "@ + gid
}

/// The registry after adding a project to a group, or why that is refused.
pub open spec fn group_add_outcome(reg: RegistryView, gid: Seq<char>, pid: Seq<char>, now: Seq<char>) -> Result<
    RegistryView,
    Seq<char>,
> {
    if !has_project(reg, pid) {
        Err(project_not_found(pid))
    } else {
        let i = group_index(reg.groups, gid);
        if i >= reg.groups.len() {
            Err(group_not_found(gid))
        } else {
            let g = reg.groups[i as int];
            let g2 = if g.project_ids.contains(pid) {
                g
            } else {
                GroupView {
                    id: g.id,
                    name: g.name,
                    description: g.description,
                    project_ids: g.project_ids.push(pid),
                    tags: g.tags,
                    created_at: g.created_at,
                    updated_at: now,
                }
            };
            Ok(
                RegistryView {
                    version: reg.version,
                    projects: reg.projects,
                    groups: reg.groups.update(i as int, g2),
                    created_at: reg.created_at,
                    updated_at: now,
                },
            )
        }
    }
}

/// The registry after removing a project from a group, or why that is
/// refused.
pub open spec fn group_remove_outcome(reg: RegistryView, gid: Seq<char>, pid: Seq<char>, now: Seq<char>) -> Result<
    RegistryView,
    Seq<char>,
> {
    let i = group_index(reg.groups, gid);
    if i >= reg.groups.len() {
        Err(group_not_found(gid))
    } else {
        Ok(
            RegistryView {
                version: reg.version,
                projects: reg.projects,
                groups: reg.groups.update(i as int, without_member(reg.groups[i as int], pid, now)),
                created_at: reg.created_at,
                updated_at: now,
            },
        )
    }
}

fn contains_string(v: &Vec<String>, x: &str) -> (r: bool)
    ensures
        r == strings_view(v@).contains(x@),
{
    let mut i: usize = 0;
    while i < v.len()
        invariant
            i <= v.len(),
            forall|k: int| 0 <= k < i ==> (#[trigger] v@[k])@ != x@,
        decreases v.len() - i,
    {
        if str_eq(v[i].as_str(), x) {
            assert(strings_view(v@)[i as int] == x@);
            return true;
        }
        i += 1;
    }
    proof {
        if strings_view(v@).contains(x@) {
            let k = choose|k: int| 0 <= k < strings_view(v@).len() && strings_view(v@)[k] == x@;
            assert(v@[k]@ == x@);
        }
    }
    false
}

/// Adds a registered project to a group (once). Returns the new registry
/// and the report.
pub fn group_add(registry: Registry, options: &GroupMembershipOptions, now: &str) -> (r: Result<
    (Registry, String),
    String,
>)
    ensures
        match group_add_outcome(registry@, options.group_id@, options.project_id@, now@) {
            Ok(v) => r is Ok && r->Ok_0.0@ == v && r->Ok_0.1@ == "added project "@
                + options.project_id@ + " to group "@ + options.group_id@,
            Err(e) => r is Err && r->Err_0@ == e,
        },
{
    let pid = options.project_id.as_str();
    let gid = options.group_id.as_str();
    let found = find_project(&registry.projects, pid);
    if found == registry.projects.len() {
        proof {
            if has_project(registry@, pid@) {
                let k = choose|k: int|
                    0 <= k < registry@.projects.len() && (#[trigger] registry@.projects[k]).id
                        == pid@;
                assert(registry.projects@[k]@.id != pid@);
            }
        }
        let mut out: Vec<char> = Vec::new();
        push_str(&mut out, "project not found: ");
        push_str(&mut out, pid);
        return Err(string_from_chars(&out));
    }
    assert(registry@.projects[found as int] == registry.projects@[found as int]@);
    let gi = find_group(&registry.groups, gid);
    proof {
        assert forall|k: int| 0 <= k < gi implies (#[trigger] registry@.groups[k]).id != gid@ by {
            assert(registry@.groups[k] == registry.groups@[k]@);
        }
        if gi < registry.groups.len() {
            assert(registry@.groups[gi as int] == registry.groups@[gi as int]@);
        }
        lemma_group_index(registry@.groups, gid@, gi as int);
    }
    if gi == registry.groups.len() {
        let mut out: Vec<char> = Vec::new();
        push_str(&mut out, "group not found: ");
        push_str(&mut out, gid);
        return Err(string_from_chars(&out));
    }
    let Registry { version, projects, groups, created_at, updated_at: _ } = registry;
    let mut groups = groups;
    let ghost before = groups_view(groups@);
    let member = contains_string(&groups[gi].project_ids, pid);
    if !member {
        let g = &groups[gi];
        let mut ids = clone_strings(&g.project_ids);
        let ghost old_ids = strings_view(ids@);
        ids.push(pid.to_owned());
        assert(strings_view(ids@) =~= old_ids.push(pid@));
        let updated = RegistryGroup {
            id: g.id.clone(),
            name: g.name.clone(),
            description: g.description.clone(),
            project_ids: ids,
            tags: clone_strings(&g.tags),
            created_at: g.created_at.clone(),
            updated_at: now.to_owned(),
        };
        groups.set(gi, updated);
        assert(groups_view(groups@) =~= before.update(gi as int, updated@));
    } else {
        assert(groups_view(groups@) =~= before.update(gi as int, before[gi as int]));
    }
    let result = Registry { version, projects, groups, created_at, updated_at: now.to_owned() };
    let mut out: Vec<char> = Vec::new();
    push_str(&mut out, "added project ");
    push_str(&mut out, pid);
    push_str(&mut out, " to group ");
    push_str(&mut out, gid);
    assert(out@ =~= "added project "@ + options.project_id@ + " to group "@ + options.group_id@);
    Ok((result, string_from_chars(&out)))
}

/// Removes a project from a group's members. Returns the new registry and
/// the report.
pub fn group_remove(registry: Registry, options: &GroupMembershipOptions, now: &str) -> (r: Result<
    (Registry, String),
    String,
>)
    ensures
        match group_remove_outcome(registry@, options.group_id@, options.project_id@, now@) {
            Ok(v) => r is Ok && r->Ok_0.0@ == v && r->Ok_0.1@ == "removed project "@
                + options.project_id@ + " from group "@ + options.group_id@,
            Err(e) => r is Err && r->Err_0@ == e,
        },
{
    let pid = options.project_id.as_str();
    let gid = options.group_id.as_str();
    let gi = find_group(&registry.groups, gid);
    proof {
        assert forall|k: int| 0 <= k < gi implies (#[trigger] registry@.groups[k]).id != gid@ by {
            assert(registry@.groups[k] == registry.groups@[k]@);
        }
        if gi < registry.groups.len() {
            assert(registry@.groups[gi as int] == registry.groups@[gi as int]@);
        }
        lemma_group_index(registry@.groups, gid@, gi as int);
    }
    if gi == registry.groups.len() {
        let mut out: Vec<char> = Vec::new();
        push_str(&mut out, "group not found: ");
        push_str(&mut out, gid);
        return Err(string_from_chars(&out));
    }
    let updated = remove_member(&registry.groups[gi], pid, now);
    let Registry { version, projects, groups, created_at, updated_at: _ } = registry;
    let mut groups = groups;
    let ghost before = groups_view(groups@);
    groups.set(gi, updated);
    assert(groups_view(groups@) =~= before.update(gi as int, updated@));
    let result = Registry { version, projects, groups, created_at, updated_at: now.to_owned() };
    let mut out: Vec<char> = Vec::new();
    push_str(&mut out, "removed project ");
    push_str(&mut out, pid);
    push_str(&mut out, " from group ");
    push_str(&mut out, gid);
    assert(out@ =~= "removed project "@ + options.project_id@ + " from group "@ + options.group_id@);
    Ok((result, string_from_chars(&out)))
}

} // verus!
