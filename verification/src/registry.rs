//! The local project registry: registered projects and metadata-only
//! project groups, with the rules for adding, updating and removing them
//! and the text each command reports. Reading and writing the registry file
//! happens around these functions; they decide what the file will hold.

pub mod ops;
pub mod report;
pub mod laws;
pub mod report_laws;
pub mod slug_laws;


use vstd::prelude::*;

use crate::clock::timestamp_string;
use crate::line_set::seq_lt;
use crate::paths::opt_view;
use crate::text::{
    chars_of, dec, has_non_ws, has_non_ws_vec, is_alnum, is_alnum_exec, is_digit, is_digit_exec, is_lower,
    is_lower_exec, lower, lower_char,
    lower_char_exec, string_from_chars, strings_view, Lines,
};

verus! {

broadcast use vstd::string::group_string_axioms;

/// The version written into new registries.
pub const REGISTRY_VERSION: u32 = 1;

/// A registered project.
#[derive(Debug, Clone, PartialEq, Eq)]
pub struct RegistryProject {
    pub id: String,
    pub name: String,
    pub path: String,
    pub database: String,
    pub tags: Vec<String>,
    pub created_at: String,
    pub updated_at: String,
    pub last_indexed_at: Option<String>,
    pub notes: Option<String>,
}

/// A named group of registered projects.
#[derive(Debug, Clone, PartialEq, Eq)]
pub struct RegistryGroup {
    pub id: String,
    pub name: String,
    pub description: String,
    pub project_ids: Vec<String>,
    pub tags: Vec<String>,
    pub created_at: String,
    pub updated_at: String,
}

/// The registry file's contents.
#[derive(Debug, Clone, PartialEq, Eq)]
pub struct Registry {
    pub version: u32,
    pub projects: Vec<RegistryProject>,
    pub groups: Vec<RegistryGroup>,
    pub created_at: String,
    pub updated_at: String,
}

#[verifier::ext_equal]
pub struct ProjectView {
    pub id: Seq<char>,
    pub name: Seq<char>,
    pub path: Seq<char>,
    pub database: Seq<char>,
    pub tags: Lines,
    pub created_at: Seq<char>,
    pub updated_at: Seq<char>,
    pub last_indexed_at: Option<Seq<char>>,
    pub notes: Option<Seq<char>>,
}

#[verifier::ext_equal]
pub struct GroupView {
    pub id: Seq<char>,
    pub name: Seq<char>,
    pub description: Seq<char>,
    pub project_ids: Lines,
    pub tags: Lines,
    pub created_at: Seq<char>,
    pub updated_at: Seq<char>,
}

#[verifier::ext_equal]
pub struct RegistryView {
    pub version: u32,
    pub projects: Seq<ProjectView>,
    pub groups: Seq<GroupView>,
    pub created_at: Seq<char>,
    pub updated_at: Seq<char>,
}

impl View for RegistryProject {
    type V = ProjectView;

    open spec fn view(&self) -> ProjectView {
        ProjectView {
            id: self.id@,
            name: self.name@,
            path: self.path@,
            database: self.database@,
            tags: strings_view(self.tags@),
            created_at: self.created_at@,
            updated_at: self.updated_at@,
            last_indexed_at: opt_view(self.last_indexed_at),
            notes: opt_view(self.notes),
        }
    }
}

impl View for RegistryGroup {
    type V = GroupView;

    open spec fn view(&self) -> GroupView {
        GroupView {
            id: self.id@,
            name: self.name@,
            description: self.description@,
            project_ids: strings_view(self.project_ids@),
            tags: strings_view(self.tags@),
            created_at: self.created_at@,
            updated_at: self.updated_at@,
        }
    }
}

pub open spec fn projects_view(v: Seq<RegistryProject>) -> Seq<ProjectView> {
    v.map_values(|p: RegistryProject| p@)
}

pub open spec fn groups_view(v: Seq<RegistryGroup>) -> Seq<GroupView> {
    v.map_values(|g: RegistryGroup| g@)
}

impl View for Registry {
    type V = RegistryView;

    open spec fn view(&self) -> RegistryView {
        RegistryView {
            version: self.version,
            projects: projects_view(self.projects@),
            groups: groups_view(self.groups@),
            created_at: self.created_at@,
            updated_at: self.updated_at@,
        }
    }
}

/// What `register` is asked to do.
#[derive(Debug, Clone, PartialEq, Eq)]
pub struct RegisterOptions {
    pub project_path: String,
    pub id: Option<String>,
    pub name: Option<String>,
    pub database_path: Option<String>,
    pub tags: Vec<String>,
    pub notes: Option<String>,
    pub update: bool,
    pub registry_path: String,
}

/// Where the registry lives and whether a change is written.
#[derive(Debug, Clone, PartialEq, Eq)]
pub struct RegistryMutationOptions {
    pub registry_path: String,
    pub apply: bool,
    pub backup: bool,
}

/// What `group create` is asked to do.
#[derive(Debug, Clone, PartialEq, Eq)]
pub struct GroupCreateOptions {
    pub name: String,
    pub id: Option<String>,
    pub description: String,
    pub tags: Vec<String>,
    pub registry_path: String,
}

/// What `group add` and `group remove` are asked to do.
#[derive(Debug, Clone, PartialEq, Eq)]
pub struct GroupMembershipOptions {
    pub group_id: String,
    pub project_id: String,
    pub registry_path: String,
}

/// What exists on disk for a registered project.
#[derive(Debug, Clone, Copy, PartialEq, Eq, Structural)]
pub struct PathFacts {
    pub path_exists: bool,
    pub database_exists: bool,
    pub b3_dir_exists: bool,
}

// ---------------------------------------------------------------------------
// Identifiers
// ---------------------------------------------------------------------------

/// Scans `s` for a slug: the text so far, and whether it ends in a dash
/// that was added for a run of other characters.
pub open spec fn slug_scan(s: Seq<char>) -> (Seq<char>, bool)
    decreases s.len(),
{
    if s.len() == 0 {
        (Seq::empty(), false)
    } else {
        let (out, dash) = slug_scan(s.drop_last());
        let c = s.last();
        if is_alnum(c) {
            (out.push(lower_char(c)), false)
        } else if !dash && out.len() > 0 {
            (out.push('-'), true)
        } else {
            (out, dash)
        }
    }
}

/// Removes every trailing dash.
pub open spec fn trim_dashes(s: Seq<char>) -> Seq<char>
    decreases s.len(),
{
    if s.len() > 0 && s.last() == '-' {
        trim_dashes(s.drop_last())
    } else {
        s
    }
}

/// An identifier made from a name: lowercase ASCII letters and digits, each
/// run of other characters after the first letter or digit turned into one
/// dash, trailing dashes dropped, `"project"` when nothing is left.
pub open spec fn slug(s: Seq<char>) -> Seq<char> {
    let t = trim_dashes(slug_scan(s).0);
    if t.len() == 0 {
        "project"@
    } else {
        t
    }
}

/// A character allowed in a registry id.
pub open spec fn id_char(c: char) -> bool {
    is_lower(c) || is_digit(c) || c == '-'
}

/// Why a registry id is refused, if it is.
pub open spec fn id_error(id: Seq<char>) -> Option<Seq<char>> {
    if !has_non_ws(id) {
        Some("id must not be empty"@)
    } else if exists|i: int| 0 <= i < id.len() && !id_char(#[trigger] id[i]) {
        Some("id must contain only lowercase ASCII letters, numbers, or '-'"@)
    } else {
        None
    }
}

/// Two paths name the same project when they match ignoring ASCII case.
pub open spec fn same_path(a: Seq<char>, b: Seq<char>) -> bool {
    lower(a) == lower(b)
}

/// Turns a name into a registry id.
pub fn slugify(value: &str) -> (r: String)
    ensures
        r@ == slug(value@),
{
    let s = chars_of(value);
    let mut out: Vec<char> = Vec::new();
    let mut dash = false;
    let mut i: usize = 0;
    while i < s.len()
        invariant
            i <= s.len(),
            s@ == value@,
            slug_scan(s@.take(i as int)) == (out@, dash),
        decreases s.len() - i,
    {
        assert(s@.take(i + 1).drop_last() =~= s@.take(i as int));
        let c = s[i];
        if is_alnum_exec(c) {
            out.push(lower_char_exec(c));
        } else if !dash && out.len() > 0 {
            out.push('-');
            dash = true;
        }
        if is_alnum_exec(c) {
            dash = false;
        }
        i += 1;
    }
    assert(s@.take(i as int) =~= s@);
    let ghost scanned = out@;
    while out.len() > 0 && out[out.len() - 1] == '-'
        invariant
            trim_dashes(scanned) == trim_dashes(out@),
        decreases out.len(),
    {
        let ghost before = out@;
        out.pop();
        assert(out@ =~= before.drop_last());
    }
    if out.len() == 0 {
        "project".to_owned()
    } else {
        string_from_chars(&out)
    }
}

/// Accepts a registry id of lowercase ASCII letters, digits and dashes.
pub fn validate_registry_id(value: &str) -> (r: Result<(), String>)
    ensures
        match id_error(value@) {
            Some(e) => r is Err && r->Err_0@ == e,
            None => r is Ok,
        },
{
    let s = chars_of(value);
    if !has_non_ws_vec(&s) {
        return Err("id must not be empty".to_owned());
    }
    let mut i: usize = 0;
    while i < s.len()
        invariant
            i <= s.len(),
            s@ == value@,
            has_non_ws(value@),
            forall|j: int| 0 <= j < i ==> id_char(#[trigger] s@[j]),
        decreases s.len() - i,
    {
        let c = s[i];
        if !(is_lower_exec(c) || is_digit_exec(c) || c == '-') {
            assert(!id_char(value@[i as int]));
            return Err("id must contain only lowercase ASCII letters, numbers, or '-'".to_owned());
        }
        i += 1;
    }
    Ok(())
}

/// Whether two paths match ignoring ASCII case.
pub fn same_path_text(left: &str, right: &str) -> (r: bool)
    ensures
        r == same_path(left@, right@),
{
    let a = chars_of(left);
    let b = chars_of(right);
    if a.len() != b.len() {
        proof {
            if lower(left@) == lower(right@) {
                assert(lower(left@).len() == lower(right@).len());
            }
        }
        return false;
    }
    let mut i: usize = 0;
    while i < a.len()
        invariant
            i <= a.len(),
            a.len() == b.len(),
            a@ == left@,
            b@ == right@,
            forall|j: int| 0 <= j < i ==> lower_char(#[trigger] a@[j]) == lower_char(b@[j]),
        decreases a.len() - i,
    {
        if lower_char_exec(a[i]) != lower_char_exec(b[i]) {
            assert(lower(left@)[i as int] != lower(right@)[i as int]);
            return false;
        }
        i += 1;
    }
    assert(lower(left@) =~= lower(right@));
    true
}

// ---------------------------------------------------------------------------
// Ordering by id
// ---------------------------------------------------------------------------

/// Inserts `x` after every item whose key is not greater than its own.
pub open spec fn insert_by_key<T>(s: Seq<T>, x: T, key: spec_fn(T) -> Seq<char>) -> Seq<T>
    decreases s.len(),
{
    if s.len() == 0 {
        seq![x]
    } else if seq_lt(key(x), key(s.last())) {
        insert_by_key(s.drop_last(), x, key).push(s.last())
    } else {
        s.push(x)
    }
}

/// A stable sort by key: each item in turn inserted after the items already
/// placed whose keys are not greater.
pub open spec fn sort_by_key<T>(s: Seq<T>, key: spec_fn(T) -> Seq<char>) -> Seq<T>
    decreases s.len(),
{
    if s.len() == 0 {
        s
    } else {
        insert_by_key(sort_by_key(s.drop_last(), key), s.last(), key)
    }
}

pub open spec fn project_id() -> spec_fn(ProjectView) -> Seq<char> {
    |p: ProjectView| p.id
}

pub open spec fn group_id() -> spec_fn(GroupView) -> Seq<char> {
    |g: GroupView| g.id
}

/// Inserting at the place a backward scan finds is `insert_by_key`.
pub proof fn lemma_insert_at<T>(s: Seq<T>, x: T, key: spec_fn(T) -> Seq<char>, j: int)
    requires
        0 <= j <= s.len(),
        forall|k: int| j <= k < s.len() ==> seq_lt(key(x), key(#[trigger] s[k])),
        j == 0 || !seq_lt(key(x), key(s[j - 1])),
    ensures
        insert_by_key(s, x, key) == s.insert(j, x),
    decreases s.len() - j,
{
    if s.len() == 0 {
        assert(s.insert(j, x) =~= seq![x]);
    } else if j == s.len() {
        assert(s.insert(j, x) =~= s.push(x));
    } else {
        assert(seq_lt(key(x), key(s[s.len() - 1])));
        lemma_insert_at(s.drop_last(), x, key, j);
        assert(s.drop_last().insert(j, x).push(s.last()) =~= s.insert(j, x));
    }
}

// ---------------------------------------------------------------------------
// Construction
// ---------------------------------------------------------------------------

/// An empty registry created at `now`.
pub open spec fn empty_registry(now: Seq<char>) -> RegistryView {
    RegistryView {
        version: REGISTRY_VERSION,
        projects: Seq::empty(),
        groups: Seq::empty(),
        created_at: now,
        updated_at: now,
    }
}

impl Registry {
    /// Stamps the registry as changed at `now`.
    pub fn touch(&mut self, now: &str)
        ensures
            final(self)@ == (RegistryView { updated_at: now@, ..old(self)@ }),
    {
        self.updated_at = now.to_owned();
    }

    /// An empty registry stamped with the time `now`.
    pub fn empty_at(now: &str) -> (r: Registry)
        ensures
            r@ == empty_registry(now@),
    {
        let r = Registry {
            version: REGISTRY_VERSION,
            projects: Vec::new(),
            groups: Vec::new(),
            created_at: now.to_owned(),
            updated_at: now.to_owned(),
        };
        assert(r@.projects =~= Seq::<ProjectView>::empty());
        assert(r@.groups =~= Seq::<GroupView>::empty());
        r
    }

    /// An empty registry stamped with the current time, a decimal count of
    /// seconds since the epoch.
    pub fn empty() -> (r: Registry)
        ensures
            exists|secs: nat| r@ == empty_registry(dec(secs)),
    {
        let now = timestamp_string();
        let r = Registry::empty_at(now.as_str());
        proof {
            let secs = choose|secs: nat| now@ == dec(secs);
            assert(r@ == empty_registry(dec(secs)));
        }
        r
    }
}

} // verus!
