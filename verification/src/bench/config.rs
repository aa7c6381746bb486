//! The cross-project benchmark's config file: a small line-based format of
//! `[section]` headers, `[[projects]]` entries and `key = value` lines, and
//! the optional projects it names.
use vstd::prelude::*;

use crate::paths::{join, join_path};
use crate::text::{chars_of, ends_with, ends_with_str, eq_str, first_index, first_index_exec, has_char, lines, push_str, slice_chars, starts_with, starts_with_str, string_from_chars, strings_view, trim, trim_char, trim_char_vec, trim_vec, vv, Lines};

verus! {

broadcast use vstd::string::group_string_axioms;

/// The branch benchmarks assume.
pub open spec fn arch_branch() -> Seq<char> {
    "main"@
}

/// A project named in the config.
#[derive(Debug, Clone, PartialEq, Eq)]
pub struct ConfiguredProject {
    pub id: String,
    pub name: String,
    pub path: String,
    pub database: String,
    pub branch: String,
    pub enabled: bool,
    pub required: bool,
}

/// The raw values given for each target, in the order they appear; the
/// harness reads each as a number and keeps the last that reads.
#[derive(Debug, Clone, PartialEq, Eq)]
pub struct TargetValues {
    pub token_reduction_multiplier: Vec<String>,
    pub tool_call_reduction_multiplier: Vec<String>,
    pub answer_quality: Vec<String>,
}

/// Defaults for projects that leave fields out.
#[derive(Debug, Clone, PartialEq, Eq)]
pub struct BenchmarkDefaults {
    pub branch: String,
    pub database_relative_path: String,
}

/// A parsed benchmark config.
#[derive(Debug, Clone, PartialEq, Eq)]
pub struct BenchmarkConfig {
    pub targets: TargetValues,
    pub defaults: BenchmarkDefaults,
    pub projects: Vec<ConfiguredProject>,
}

#[verifier::ext_equal]
pub struct ProjectView {
    pub id: Seq<char>,
    pub name: Seq<char>,
    pub path: Seq<char>,
    pub database: Seq<char>,
    pub branch: Seq<char>,
    pub enabled: bool,
    pub required: bool,
}

impl View for ConfiguredProject {
    type V = ProjectView;

    open spec fn view(&self) -> ProjectView {
        ProjectView {
            id: self.id@,
            name: self.name@,
            path: self.path@,
            database: self.database@,
            branch: self.branch@,
            enabled: self.enabled,
            required: self.required,
        }
    }
}

pub open spec fn projects_view(v: Seq<ConfiguredProject>) -> Seq<ProjectView> {
    v.map_values(|p: ConfiguredProject| p@)
}

/// What a config scan has read so far.
#[verifier::ext_equal]
pub struct ScanState {
    pub token_targets: Lines,
    pub tool_call_targets: Lines,
    pub quality_targets: Lines,
    pub branch: Seq<char>,
    pub database_relative_path: Seq<char>,
    pub projects: Seq<ProjectView>,
    pub section: Seq<char>,
    pub current: Option<ProjectView>,
    pub local_only: bool,
    pub offline_required: bool,
    pub telemetry_false: bool,
}

/// Text with every doubled backslash made single, scanning from the left.
pub open spec fn collapse_backslashes(s: Seq<char>) -> Seq<char>
    decreases s.len(),
{
    if s.len() == 0 {
        Seq::empty()
    } else if s.len() >= 2 && s[0] == '\\' && s[1] == '\\' {
        seq!['\\'] + collapse_backslashes(s.skip(2))
    } else {
        seq![s[0]] + collapse_backslashes(s.skip(1))
    }
}

/// A config value: trimmed, outer double quotes removed, doubled
/// backslashes made single.
pub open spec fn unquoted(value: Seq<char>) -> Seq<char> {
    collapse_backslashes(trim_char(trim(value), '"'))
}

/// Removes every leading and trailing `[` and `]`.
pub open spec fn trim_brackets_end(s: Seq<char>) -> Seq<char>
    decreases s.len(),
{
    if s.len() > 0 && (s.last() == '[' || s.last() == ']') {
        trim_brackets_end(s.drop_last())
    } else {
        s
    }
}

pub open spec fn trim_brackets_start(s: Seq<char>) -> Seq<char>
    decreases s.len(),
{
    if s.len() > 0 && (s[0] == '[' || s[0] == ']') {
        trim_brackets_start(s.drop_first())
    } else {
        s
    }
}

pub open spec fn section_name(line: Seq<char>) -> Seq<char> {
    trim_brackets_start(trim_brackets_end(line))
}

/// The meaningful part of a raw line: what precedes any `#`, trimmed.
pub open spec fn config_line(raw: Seq<char>) -> Seq<char> {
    trim(raw.take(first_index(raw, '#') as int))
}

/// A project opened by `[[projects]]`: enabled, on the default branch.
pub open spec fn fresh_project(branch: Seq<char>) -> ProjectView {
    ProjectView {
        id: Seq::empty(),
        name: Seq::empty(),
        path: Seq::empty(),
        database: Seq::empty(),
        branch,
        enabled: true,
        required: false,
    }
}

/// The projects with the open one, if any, added.
pub open spec fn flushed(projects: Seq<ProjectView>, current: Option<ProjectView>) -> Seq<ProjectView> {
    match current {
        Some(p) => projects.push(p),
        None => projects,
    }
}

/// A project with one key set.
pub open spec fn project_with(p: ProjectView, key: Seq<char>, value: Seq<char>) -> ProjectView {
    if key == "id"@ {
        ProjectView { id: value, ..p }
    } else if key == "name"@ {
        ProjectView { name: value, ..p }
    } else if key == "path"@ {
        ProjectView { path: value, ..p }
    } else if key == "database"@ {
        ProjectView { database: value, ..p }
    } else if key == "branch"@ {
        ProjectView { branch: value, ..p }
    } else if key == "enabled"@ {
        ProjectView { enabled: value == "true"@, ..p }
    } else if key == "required"@ {
        ProjectView { required: value == "true"@, ..p }
    } else {
        p
    }
}

/// The state after a `key = value` line in the current section.
pub open spec fn assigned(st: ScanState, key: Seq<char>, value: Seq<char>) -> ScanState {
    if st.section == "targets"@ {
        if key == "token_reduction_multiplier"@ {
            ScanState { token_targets: st.token_targets.push(value), ..st }
        } else if key == "tool_call_reduction_multiplier"@ {
            ScanState { tool_call_targets: st.tool_call_targets.push(value), ..st }
        } else if key == "answer_quality"@ {
            ScanState { quality_targets: st.quality_targets.push(value), ..st }
        } else {
            st
        }
    } else if st.section == "defaults"@ {
        if key == "branch"@ {
            ScanState { branch: value, ..st }
        } else if key == "database_relative_path"@ {
            ScanState { database_relative_path: value, ..st }
        } else {
            st
        }
    } else if st.section == "projects"@ {
        match st.current {
            Some(p) => ScanState { current: Some(project_with(p, key, value)), ..st },
            None => st,
        }
    } else if key == "local_only"@ {
        ScanState { local_only: value == "true"@, ..st }
    } else if key == "offline_required"@ {
        ScanState { offline_required: value == "true"@, ..st }
    } else if key == "telemetry"@ {
        ScanState { telemetry_false: value == "false"@, ..st }
    } else {
        st
    }
}

/// The state after one raw line.
pub open spec fn config_step(st: ScanState, raw: Seq<char>) -> ScanState {
    let line = config_line(raw);
    if line.len() == 0 {
        st
    } else if line == "[[projects]]"@ {
        ScanState {
            projects: flushed(st.projects, st.current),
            current: Some(fresh_project(st.branch)),
            section: "projects"@,
            ..st
        }
    } else if starts_with(line, "["@) && ends_with(line, "]"@) {
        ScanState {
            projects: flushed(st.projects, st.current),
            current: None,
            section: section_name(line),
            ..st
        }
    } else if !has_char(line, '=') {
        st
    } else {
        let k = first_index(line, '=') as int;
        assigned(st, trim(line.take(k)), unquoted(line.skip(k + 1)))
    }
}

pub open spec fn initial_scan() -> ScanState {
    ScanState {
        token_targets: Seq::empty(),
        tool_call_targets: Seq::empty(),
        quality_targets: Seq::empty(),
        branch: arch_branch(),
        database_relative_path: ".b3/b3.db"@,
        projects: Seq::empty(),
        section: Seq::empty(),
        current: None,
        local_only: false,
        offline_required: false,
        telemetry_false: false,
    }
}

pub open spec fn config_scan(ls: Lines) -> ScanState
    decreases ls.len(),
{
    if ls.len() == 0 {
        initial_scan()
    } else {
        config_step(config_scan(ls.drop_last()), ls.last())
    }
}

/// The projects used when the config names none.
pub open spec fn default_projects() -> Seq<ProjectView> {
    seq![
        ProjectView {
            id: "b3_mcp"@,
            name: "B3 MCP"@,
            path: "D:\\Project\\b3_mcp"@,
            database: "D:\\Project\\b3_mcp\\.b3\\b3.db"@,
            branch: arch_branch(),
            enabled: true,
            required: false,
        },
        ProjectView {
            id: "project_b"@,
            name: "Project_B"@,
            path: "D:\\Project\\Project_B"@,
            database: "D:\\Project\\Project_B\\.b3\\b3.db"@,
            branch: arch_branch(),
            enabled: true,
            required: false,
        },
        ProjectView {
            id: "tuvi_b"@,
            name: "Tuvi_B"@,
            path: "D:\\Project\\Tuvi_B"@,
            database: "D:\\Project\\Tuvi_B\\.b3\\b3.db"@,
            branch: arch_branch(),
            enabled: true,
            required: false,
        },
    ]
}

/// The warnings a parsed config raises.
pub open spec fn config_warnings(st: ScanState) -> Lines {
    let a: Lines = if !st.local_only {
        seq!["Benchmark config local_only was not true"@]
    } else {
        Seq::empty()
    };
    let b = if !st.offline_required {
        a.push("Benchmark config offline_required was not true"@)
    } else {
        a
    };
    if !st.telemetry_false {
        b.push("Benchmark config telemetry was not false"@)
    } else {
        b
    }
}

/// The projects a parsed config names, or the defaults when it names none.
pub open spec fn config_projects(st: ScanState) -> Seq<ProjectView> {
    let ps = flushed(st.projects, st.current);
    if ps.len() == 0 {
        default_projects()
    } else {
        ps
    }
}

// ---------------------------------------------------------------------------
// Executable scan
// ---------------------------------------------------------------------------

/// `str::replace("\\\\", "\\")`: each doubled backslash made single.
pub fn collapse_backslashes_exec(s: &Vec<char>) -> (r: Vec<char>)
    ensures
        r@ == collapse_backslashes(s@),
{
    let mut out: Vec<char> = Vec::new();
    let mut i: usize = 0;
    assert(s@.skip(0) =~= s@);
    while i < s.len()
        invariant
            i <= s.len(),
            collapse_backslashes(s@) == out@ + collapse_backslashes(s@.skip(i as int)),
        decreases s.len() - i,
    {
        let ghost rest = s@.skip(i as int);
        if i + 1 < s.len() && s[i] == '\\' && s[i + 1] == '\\' {
            out.push('\\');
            assert(rest.skip(2) =~= s@.skip(i + 2));
            i += 2;
        } else {
            out.push(s[i]);
            assert(rest.skip(1) =~= s@.skip(i + 1));
            i += 1;
        }
        proof {
            assert(collapse_backslashes(s@) =~= out@ + collapse_backslashes(s@.skip(i as int)));
        }
    }
    assert(s@.skip(i as int) =~= Seq::<char>::empty());
    assert(out@ + Seq::<char>::empty() =~= out@);
    out
}

/// A config value: trimmed, outer double quotes removed, doubled
/// backslashes made single.
pub fn unquote(value: &str) -> (r: String)
    ensures
        r@ == unquoted(value@),
{
    let t = trim_vec(&chars_of(value));
    let q = trim_char_vec(&t, '"');
    string_from_chars(&collapse_backslashes_exec(&q))
}

fn trim_brackets(s: &Vec<char>) -> (r: Vec<char>)
    ensures
        r@ == section_name(s@),
{
    let mut n: usize = s.len();
    assert(s@.take(n as int) =~= s@);
    while n > 0 && (s[n - 1] == '[' || s[n - 1] == ']')
        invariant
            n <= s.len(),
            trim_brackets_end(s@) == trim_brackets_end(s@.take(n as int)),
        decreases n,
    {
        assert(s@.take(n as int).drop_last() =~= s@.take(n - 1));
        n -= 1;
    }
    let ghost e = s@.take(n as int);
    let mut k: usize = 0;
    assert(e.skip(0) =~= e);
    while k < n && (s[k] == '[' || s[k] == ']')
        invariant
            k <= n <= s.len(),
            e == s@.take(n as int),
            trim_brackets_start(e) == trim_brackets_start(e.skip(k as int)),
        decreases n - k,
    {
        assert(e.skip(k as int).drop_first() =~= e.skip(k + 1));
        k += 1;
    }
    let r = slice_chars(s, k, n);
    assert(r@ =~= e.skip(k as int));
    r
}

/// The config being read, line by line.
struct ConfigScan {
    token_targets: Vec<String>,
    tool_call_targets: Vec<String>,
    quality_targets: Vec<String>,
    branch: String,
    database_relative_path: String,
    projects: Vec<ConfiguredProject>,
    section: Vec<char>,
    current: Option<ConfiguredProject>,
    local_only: bool,
    offline_required: bool,
    telemetry_false: bool,
}

impl View for ConfigScan {
    type V = ScanState;

    closed spec fn view(&self) -> ScanState {
        ScanState {
            token_targets: strings_view(self.token_targets@),
            tool_call_targets: strings_view(self.tool_call_targets@),
            quality_targets: strings_view(self.quality_targets@),
            branch: self.branch@,
            database_relative_path: self.database_relative_path@,
            projects: projects_view(self.projects@),
            section: self.section@,
            current: match self.current {
                Some(p) => Some(p@),
                None => None,
            },
            local_only: self.local_only,
            offline_required: self.offline_required,
            telemetry_false: self.telemetry_false,
        }
    }
}

fn push_string(v: &mut Vec<String>, s: String)
    ensures
        strings_view(final(v)@) == strings_view(old(v)@).push(s@),
{
    let ghost before = strings_view(v@);
    let ghost sv = s@;
    v.push(s);
    assert(strings_view(v@) =~= before.push(sv));
}

impl ConfigScan {
    fn flush(&mut self)
        ensures
            final(self)@ == (ScanState {
                projects: flushed(old(self)@.projects, old(self)@.current),
                current: None,
                ..old(self)@
            }),
    {
        let ghost before = projects_view(self.projects@);
        match self.current.take() {
            Some(p) => {
                let ghost pv = p@;
                self.projects.push(p);
                assert(projects_view(self.projects@) =~= before.push(pv));
            },
            None => {},
        }
    }

    fn set_project_key(&mut self, key: &Vec<char>, value: String)
        requires
            old(self)@.section == "projects"@,
        ensures
            final(self)@ == assigned(old(self)@, key@, value@),
    {
        proof {
            reveal_strlit("projects");
            reveal_strlit("targets");
            reveal_strlit("defaults");
            assert("projects"@[0] != "targets"@[0]);
            assert("projects"@[0] != "defaults"@[0]);
        }
        match self.current.take() {
            Some(mut p) => {
                if eq_str(key, "id") {
                    p.id = value;
                } else if eq_str(key, "name") {
                    p.name = value;
                } else if eq_str(key, "path") {
                    p.path = value;
                } else if eq_str(key, "database") {
                    p.database = value;
                } else if eq_str(key, "branch") {
                    p.branch = value;
                } else if eq_str(key, "enabled") {
                    p.enabled = str_is(&value, "true");
                } else if eq_str(key, "required") {
                    p.required = str_is(&value, "true");
                }
                self.current = Some(p);
            },
            None => {},
        }
    }

    fn assign(&mut self, key: &Vec<char>, value: String)
        ensures
            final(self)@ == assigned(old(self)@, key@, value@),
    {
        if eq_str(&self.section, "targets") {
            if eq_str(key, "token_reduction_multiplier") {
                push_string(&mut self.token_targets, value);
            } else if eq_str(key, "tool_call_reduction_multiplier") {
                push_string(&mut self.tool_call_targets, value);
            } else if eq_str(key, "answer_quality") {
                push_string(&mut self.quality_targets, value);
            }
        } else if eq_str(&self.section, "defaults") {
            if eq_str(key, "branch") {
                self.branch = value;
            } else if eq_str(key, "database_relative_path") {
                self.database_relative_path = value;
            }
        } else if eq_str(&self.section, "projects") {
            self.set_project_key(key, value);
        } else if eq_str(key, "local_only") {
            self.local_only = str_is(&value, "true");
        } else if eq_str(key, "offline_required") {
            self.offline_required = str_is(&value, "true");
        } else if eq_str(key, "telemetry") {
            self.telemetry_false = str_is(&value, "false");
        }
    }

    fn step(&mut self, raw: &Vec<char>)
        ensures
            final(self)@ == config_step(old(self)@, raw@),
    {
        let hash = first_index_exec(raw, '#');
        let before_hash = slice_chars(raw, 0, hash);
        assert(before_hash@ =~= raw@.take(first_index(raw@, '#') as int));
        let line = trim_vec(&before_hash);
        if line.len() == 0 {
            return;
        }
        if eq_str(&line, "[[projects]]") {
            self.flush();
            self.current = Some(
                ConfiguredProject {
                    id: String::new(),
                    name: String::new(),
                    path: String::new(),
                    database: String::new(),
                    branch: self.branch.clone(),
                    enabled: true,
                    required: false,
                },
            );
            let mut section: Vec<char> = Vec::new();
            push_str(&mut section, "projects");
            self.section = section;
            return;
        }
        if starts_with_str(&line, "[") && ends_with_str(&line, "]") {
            self.flush();
            self.section = trim_brackets(&line);
            return;
        }
        let eq = first_index_exec(&line, '=');
        if eq == line.len() {
            proof {
                if has_char(line@, '=') {
                    let j = choose|j: int| 0 <= j < line@.len() && line@[j] == '=';
                    assert(line@[j] != '=');
                }
            }
            return;
        }
        assert(has_char(line@, '='));
        let key = trim_vec(&slice_chars(&line, 0, eq));
        let raw_value = slice_chars(&line, eq + 1, line.len());
        assert(key@ =~= trim(line@.take(eq as int)));
        assert(raw_value@ =~= line@.skip(eq + 1));
        let value = unquote(string_from_chars(&raw_value).as_str());
        self.assign(&key, value);
    }
}

/// Whether a string is exactly `text`.
fn str_is(s: &String, text: &str) -> (r: bool)
    ensures
        r == (s@ == text@),
{
    eq_str(&chars_of(s.as_str()), text)
}

fn text_of(s: &str) -> (r: String)
    ensures
        r@ == s@,
{
    s.to_owned()
}

fn default_project(id: &str, name: &str, path: &str, database: &str) -> (r: ConfiguredProject)
    ensures
        r@ == (ProjectView {
            id: id@,
            name: name@,
            path: path@,
            database: database@,
            branch: arch_branch(),
            enabled: true,
            required: false,
        }),
{
    ConfiguredProject {
        id: text_of(id),
        name: text_of(name),
        path: text_of(path),
        database: text_of(database),
        branch: text_of("main"),
        enabled: true,
        required: false,
    }
}

/// The projects used when the config names none.
pub fn default_optional_projects() -> (r: Vec<ConfiguredProject>)
    ensures
        projects_view(r@) == default_projects(),
{
    let r = vec![
        default_project("b3_mcp", "B3 MCP", "D:\\Project\\b3_mcp", "D:\\Project\\b3_mcp\\.b3\\b3.db"),
        default_project(
            "project_b",
            "Project_B",
            "D:\\Project\\Project_B",
            "D:\\Project\\Project_B\\.b3\\b3.db",
        ),
        default_project("tuvi_b", "Tuvi_B", "D:\\Project\\Tuvi_B", "D:\\Project\\Tuvi_B\\.b3\\b3.db"),
    ];
    assert(projects_view(r@) =~= default_projects());
    r
}

/// Reads a benchmark config: the targets' raw values, the defaults, the
/// projects (the defaults when it names none), and warnings for each of
/// `local_only`, `offline_required` and `telemetry = false` it does not
/// assert.
pub fn parse_benchmark_config(content: &str) -> (r: (BenchmarkConfig, Vec<String>))
    ensures
        ({
            let st = config_scan(lines(content@));
            &&& strings_view(r.0.targets.token_reduction_multiplier@) == st.token_targets
            &&& strings_view(r.0.targets.tool_call_reduction_multiplier@) == st.tool_call_targets
            &&& strings_view(r.0.targets.answer_quality@) == st.quality_targets
            &&& r.0.defaults.branch@ == st.branch
            &&& r.0.defaults.database_relative_path@ == st.database_relative_path
            &&& projects_view(r.0.projects@) == config_projects(st)
            &&& strings_view(r.1@) == config_warnings(st)
        }),
{
    let ls = crate::text::split_lines(&chars_of(content));
    let ghost lv = vv(ls@);
    let mut scan = ConfigScan {
        token_targets: Vec::new(),
        tool_call_targets: Vec::new(),
        quality_targets: Vec::new(),
        branch: text_of("main"),
        database_relative_path: text_of(".b3/b3.db"),
        projects: Vec::new(),
        section: Vec::new(),
        current: None,
        local_only: false,
        offline_required: false,
        telemetry_false: false,
    };
    assert(scan@ =~= initial_scan());
    assert(lv.take(0) =~= Seq::<Seq<char>>::empty());
    let mut i: usize = 0;
    while i < ls.len()
        invariant
            lv == vv(ls@),
            i <= ls.len(),
            scan@ == config_scan(lv.take(i as int)),
        decreases ls.len() - i,
    {
        assert(lv.take(i + 1).drop_last() =~= lv.take(i as int));
        assert(lv[i as int] == ls@[i as int]@);
        scan.step(&ls[i]);
        i += 1;
    }
    assert(lv.take(i as int) =~= lv);
    let ghost st = scan@;
    scan.flush();
    let mut warnings: Vec<String> = Vec::new();
    if !scan.local_only {
        push_string(&mut warnings, text_of("Benchmark config local_only was not true"));
    }
    if !scan.offline_required {
        push_string(&mut warnings, text_of("Benchmark config offline_required was not true"));
    }
    if !scan.telemetry_false {
        push_string(&mut warnings, text_of("Benchmark config telemetry was not false"));
    }
    assert(strings_view(warnings@) =~= config_warnings(st));
    let projects = if scan.projects.len() == 0 {
        default_optional_projects()
    } else {
        scan.projects
    };
    let config = BenchmarkConfig {
        targets: TargetValues {
            token_reduction_multiplier: scan.token_targets,
            tool_call_reduction_multiplier: scan.tool_call_targets,
            answer_quality: scan.quality_targets,
        },
        defaults: BenchmarkDefaults {
            branch: scan.branch,
            database_relative_path: scan.database_relative_path,
        },
        projects,
    };
    (config, warnings)
}

// ---------------------------------------------------------------------------
// Optional projects
// ---------------------------------------------------------------------------

/// How an optional benchmark project was found.
#[derive(Debug, Clone, PartialEq, Eq)]
pub struct BenchmarkProjectStatus {
    pub id: String,
    pub name: String,
    pub path: String,
    pub database: String,
    pub branch: String,
    pub required: bool,
    pub used: bool,
    pub warning: Option<String>,
}

/// What the branch assumptions of an architecture benchmark were.
#[derive(Debug, Clone, PartialEq, Eq)]
pub struct BranchSafetyReport {
    pub requested_branch: String,
    pub branch_used: String,
    pub warnings: Vec<String>,
    pub full_git_intelligence_ready: bool,
}

/// A configured project the benchmark looks at: enabled, and not the
/// built-in semantic fixture.
pub open spec fn considered() -> spec_fn(ProjectView) -> bool {
    |p: ProjectView| p.enabled && p.id != "semantic_search_fixture"@
}

/// A project's database: the one configured, else the default relative
/// path under the project.
pub open spec fn project_database(p: ProjectView, database_relative_path: Seq<char>) -> Seq<char> {
    if p.database.len() == 0 {
        join(p.path, database_relative_path)
    } else {
        p.database
    }
}

/// The paths to check for each considered project: its path and database.
pub open spec fn paths_to_check(ps: Seq<ProjectView>, database_relative_path: Seq<char>) -> Seq<
    (Seq<char>, Seq<char>),
> {
    ps.filter(considered()).map_values(
        |p: ProjectView| (p.path, project_database(p, database_relative_path)),
    )
}

#[verifier::ext_equal]
pub struct StatusView {
    pub id: Seq<char>,
    pub name: Seq<char>,
    pub path: Seq<char>,
    pub database: Seq<char>,
    pub branch: Seq<char>,
    pub required: bool,
    pub used: bool,
    pub warning: Option<Seq<char>>,
}

impl View for BenchmarkProjectStatus {
    type V = StatusView;

    open spec fn view(&self) -> StatusView {
        StatusView {
            id: self.id@,
            name: self.name@,
            path: self.path@,
            database: self.database@,
            branch: self.branch@,
            required: self.required,
            used: self.used,
            warning: match self.warning {
                Some(w) => Some(w@),
                None => None,
            },
        }
    }
}

/// The status of a considered project, given whether its path and its
/// database exist.
pub open spec fn project_status_of(
    p: ProjectView,
    defaults_branch: Seq<char>,
    database_relative_path: Seq<char>,
    path_exists: bool,
    database_exists: bool,
) -> StatusView {
    let database = project_database(p, database_relative_path);
    let warning = if !path_exists {
        Some("Optional benchmark project path not found: "@ + p.path)
    } else if !database_exists {
        Some("Optional benchmark database not found: "@ + database)
    } else {
        None
    };
    StatusView {
        id: p.id,
        name: if p.name.len() == 0 {
            p.id
        } else {
            p.name
        },
        path: p.path,
        database,
        branch: if p.branch.len() == 0 {
            defaults_branch
        } else {
            p.branch
        },
        required: p.required,
        used: warning is None,
        warning,
    }
}

fn project_database_exec(p: &ConfiguredProject, database_relative_path: &String) -> (r: String)
    ensures
        r@ == project_database(p@, database_relative_path@),
{
    if p.database.as_str().unicode_len() == 0 {
        join_path(p.path.as_str(), database_relative_path.as_str())
    } else {
        p.database.clone()
    }
}

fn is_considered(p: &ConfiguredProject) -> (r: bool)
    ensures
        r == considered()(p@),
{
    p.enabled && !str_is(&p.id, "semantic_search_fixture")
}

/// The path and database to check for each project the benchmark looks
/// at, in order.
pub fn optional_project_paths(config: &BenchmarkConfig) -> (r: Vec<(String, String)>)
    ensures
        r@.map_values(|t: (String, String)| (t.0@, t.1@)) == paths_to_check(
            projects_view(config.projects@),
            config.defaults.database_relative_path@,
        ),
{
    let ghost ps = projects_view(config.projects@);
    let ghost rel = config.defaults.database_relative_path@;
    let mut r: Vec<(String, String)> = Vec::new();
    let mut i: usize = 0;
    proof {
        reveal(Seq::filter);
        assert(ps.take(0) =~= Seq::<ProjectView>::empty());
    }
    assert(r@.map_values(|t: (String, String)| (t.0@, t.1@)) =~= paths_to_check(ps.take(0), rel));
    while i < config.projects.len()
        invariant
            ps == projects_view(config.projects@),
            rel == config.defaults.database_relative_path@,
            i <= config.projects.len(),
            r@.map_values(|t: (String, String)| (t.0@, t.1@)) == paths_to_check(
                ps.take(i as int),
                rel,
            ),
        decreases config.projects.len() - i,
    {
        let p = &config.projects[i];
        assert(ps[i as int] == p@);
        proof {
            reveal(Seq::filter);
            assert(ps.take(i + 1).drop_last() =~= ps.take(i as int));
        }
        if is_considered(p) {
            let ghost before = r@.map_values(|t: (String, String)| (t.0@, t.1@));
            let entry = (p.path.clone(), project_database_exec(p, &config.defaults.database_relative_path));
            r.push(entry);
            assert(r@.map_values(|t: (String, String)| (t.0@, t.1@)) =~= before.push(
                (p@.path, project_database(p@, rel)),
            ));
        }
        i += 1;
        assert(r@.map_values(|t: (String, String)| (t.0@, t.1@)) =~= paths_to_check(
            ps.take(i as int),
            rel,
        ));
    }
    assert(ps.take(i as int) =~= ps);
    r
}

/// The statuses of the projects the benchmark looks at; `facts[i]` tells
/// whether the `i`-th path and database of `optional_project_paths` exist.
pub fn inspect_optional_projects(config: &BenchmarkConfig, facts: &Vec<(bool, bool)>) -> (r: Vec<
    BenchmarkProjectStatus,
>)
    requires
        facts.len() == projects_view(config.projects@).filter(considered()).len(),
    ensures
        r.len() == facts.len(),
        forall|i: int|
            0 <= i < r.len() ==> (#[trigger] r@[i])@ == project_status_of(
                projects_view(config.projects@).filter(considered())[i],
                config.defaults.branch@,
                config.defaults.database_relative_path@,
                facts@[i].0,
                facts@[i].1,
            ),
{
    let ghost ps = projects_view(config.projects@);
    let ghost kept = ps.filter(considered());
    let mut r: Vec<BenchmarkProjectStatus> = Vec::new();
    let mut i: usize = 0;
    let mut k: usize = 0;
    proof {
        reveal(Seq::filter);
        assert(ps.take(0) =~= Seq::<ProjectView>::empty());
    }
    while i < config.projects.len()
        invariant
            ps == projects_view(config.projects@),
            kept == ps.filter(considered()),
            facts.len() == kept.len(),
            i <= config.projects.len(),
            k == r.len(),
            ps.take(i as int).filter(considered()).len() == k,
            forall|j: int| 0 <= j < k ==> kept[j] == ps.take(i as int).filter(considered())[j],
            forall|j: int|
                0 <= j < k ==> (#[trigger] r@[j])@ == project_status_of(
                    kept[j],
                    config.defaults.branch@,
                    config.defaults.database_relative_path@,
                    facts@[j].0,
                    facts@[j].1,
                ),
        decreases config.projects.len() - i,
    {
        let p = &config.projects[i];
        assert(ps[i as int] == p@);
        proof {
            reveal(Seq::filter);
            assert(ps.take(i + 1).drop_last() =~= ps.take(i as int));
            lemma_filter_prefix(ps, considered(), i + 1);
        }
        if is_considered(p) {
            assert(ps.take(i + 1).filter(considered()) == ps.take(i as int).filter(considered()).push(p@));
            assert(k < kept.len());
            assert(kept[k as int] == p@);
            let database = project_database_exec(p, &config.defaults.database_relative_path);
            let (path_exists, database_exists) = facts[k];
            let warning = if !path_exists {
                let mut w: Vec<char> = Vec::new();
                push_str(&mut w, "Optional benchmark project path not found: ");
                push_str(&mut w, p.path.as_str());
                Some(string_from_chars(&w))
            } else if !database_exists {
                let mut w: Vec<char> = Vec::new();
                push_str(&mut w, "Optional benchmark database not found: ");
                push_str(&mut w, database.as_str());
                Some(string_from_chars(&w))
            } else {
                None
            };
            let used = warning.is_none();
            let status = BenchmarkProjectStatus {
                id: p.id.clone(),
                name: if p.name.as_str().unicode_len() == 0 {
                    p.id.clone()
                } else {
                    p.name.clone()
                },
                path: p.path.clone(),
                database,
                branch: if p.branch.as_str().unicode_len() == 0 {
                    config.defaults.branch.clone()
                } else {
                    p.branch.clone()
                },
                required: p.required,
                used,
                warning,
            };
            assert(status@ == project_status_of(
                p@,
                config.defaults.branch@,
                config.defaults.database_relative_path@,
                path_exists,
                database_exists,
            ));
            r.push(status);
            k += 1;
        }
        i += 1;
    }
    assert(ps.take(i as int) =~= ps);
    r
}

/// Every prefix's filtered items are a prefix of the filtered items.
proof fn lemma_filter_prefix(s: Seq<ProjectView>, pred: spec_fn(ProjectView) -> bool, n: int)
    requires
        0 <= n <= s.len(),
    ensures
        s.take(n).filter(pred).len() <= s.filter(pred).len(),
        forall|j: int|
            0 <= j < s.take(n).filter(pred).len() ==> s.filter(pred)[j] == s.take(n).filter(
                pred,
            )[j],
    decreases s.len() - n,
{
    reveal(Seq::filter);
    if n < s.len() {
        lemma_filter_prefix(s, pred, n + 1);
        assert(s.take(n + 1).drop_last() =~= s.take(n));
    } else {
        assert(s.take(n) =~= s);
    }
}

/// The branch assumptions of an architecture benchmark asked to use
/// `requested_branch`.
pub fn branch_safety_report(requested_branch: &str) -> (r: BranchSafetyReport)
    ensures
        r.requested_branch@ == requested_branch@,
        r.branch_used@ == arch_branch(),
        strings_view(r.warnings@) == seq![
            "Phase 11.7 reports branch assumptions only; full Git Intelligence is Phase 21"@,
            "After switching branches, reindex before comparing architecture benchmark results"@,
        ],
        !r.full_git_intelligence_ready,
{
    let warnings = vec![
        text_of("Phase 11.7 reports branch assumptions only; full Git Intelligence is Phase 21"),
        text_of("After switching branches, reindex before comparing architecture benchmark results"),
    ];
    assert(strings_view(warnings@) =~= seq![
        "Phase 11.7 reports branch assumptions only; full Git Intelligence is Phase 21"@,
        "After switching branches, reindex before comparing architecture benchmark results"@,
    ]);
    BranchSafetyReport {
        requested_branch: text_of(requested_branch),
        branch_used: text_of("main"),
        warnings,
        full_git_intelligence_ready: false,
    }
}

} // verus!
