//! What the setup commands report: the warnings about local paths, the
//! install, uninstall and template reports, and the doctor's checklist.
use vstd::prelude::*;

use crate::paths::{opt_view, parent_of, path_parent};
use crate::setup::codex::{mcp_command, template_command};
use crate::setup::{
    agent_text, check_line, check_line_text, next_steps, next_steps_text, profile_text,
    DoctorOptions, InstallOptions, InstallPlan, McpConfigOptions, McpConfigPlan,
    UninstallOptions,
};
use crate::text::{
    contains, joined_with, lemma_joined_contains, push_joined, push_str, string_from_chars, strings_view, Lines,
};

verus! {

broadcast use vstd::string::group_string_axioms;

/// What exists locally for an install: the runtime command, the project,
/// the database's parent directory and file, and the config's parent
/// directory.
#[derive(Debug, Clone, Copy, PartialEq, Eq, Structural)]
pub struct PathChecks {
    pub command_exists: bool,
    pub project_exists: bool,
    pub database_parent_exists: bool,
    pub database_exists: bool,
    pub target_parent_exists: bool,
}

/// What the doctor found locally.
#[derive(Debug, Clone, Copy, PartialEq, Eq, Structural)]
pub struct DoctorChecks {
    pub command_exists: bool,
    pub project_exists: bool,
    pub database_parent_exists: bool,
    pub database_exists: bool,
    pub control_port_available: bool,
    pub codex_parent_exists: bool,
    pub cursor_parent_exists: bool,
}

/// The warnings about local paths an install or template reports.
pub open spec fn path_warning_lines(
    command: Seq<char>,
    project: Seq<char>,
    database: Seq<char>,
    target: Seq<char>,
    c: PathChecks,
) -> Lines {
    let a: Lines = if !c.command_exists {
        seq!["MCP runtime command was not found locally: "@ + command]
    } else {
        Seq::empty()
    };
    let b = if !c.project_exists {
        a.push("project path does not exist: "@ + project)
    } else {
        a
    };
    let d = match path_parent(database) {
        Some(p) => if !c.database_parent_exists {
            b.push(".b3/database parent does not exist: "@ + p)
        } else {
            b
        },
        None => b,
    };
    let e = if !c.database_exists {
        d.push("database file does not exist yet: "@ + database)
    } else {
        d
    };
    match path_parent(target) {
        Some(p) => if !c.target_parent_exists {
            e.push("config parent does not exist yet and will be created on apply: "@ + p)
        } else {
            e
        },
        None => e,
    }
}

fn push_text(v: &mut Vec<String>, parts: &Vec<char>)
    ensures
        strings_view(final(v)@) == strings_view(old(v)@).push(parts@),
{
    let s = string_from_chars(parts);
    let ghost before = strings_view(v@);
    v.push(s);
    assert(strings_view(v@) =~= before.push(parts@));
}

fn push_line2(v: &mut Vec<String>, a: &str, b: &str)
    ensures
        strings_view(final(v)@) == strings_view(old(v)@).push(a@ + b@),
{
    let mut t: Vec<char> = Vec::new();
    push_str(&mut t, a);
    push_str(&mut t, b);
    assert(t@ =~= a@ + b@);
    push_text(v, &t);
}

fn push_line1(v: &mut Vec<String>, a: &str)
    ensures
        strings_view(final(v)@) == strings_view(old(v)@).push(a@),
{
    let mut t: Vec<char> = Vec::new();
    push_str(&mut t, a);
    assert(t@ =~= a@);
    push_text(v, &t);
}

/// Warnings about the local paths an install uses.
pub fn path_warnings(
    command_path: &str,
    project_path: &str,
    database_path: &str,
    target_path: &str,
    checks: PathChecks,
) -> (r: Vec<String>)
    ensures
        strings_view(r@) == path_warning_lines(
            command_path@,
            project_path@,
            database_path@,
            target_path@,
            checks,
        ),
{
    let mut w: Vec<String> = Vec::new();
    assert(strings_view(w@) =~= Seq::<Seq<char>>::empty());
    if !checks.command_exists {
        push_line2(&mut w, "MCP runtime command was not found locally: ", command_path);
    }
    if !checks.project_exists {
        push_line2(&mut w, "project path does not exist: ", project_path);
    }
    match parent_of(database_path) {
        Some(p) => {
            if !checks.database_parent_exists {
                push_line2(&mut w, ".b3/database parent does not exist: ", p.as_str());
            }
        },
        None => {},
    }
    if !checks.database_exists {
        push_line2(&mut w, "database file does not exist yet: ", database_path);
    }
    match parent_of(target_path) {
        Some(p) => {
            if !checks.target_parent_exists {
                push_line2(
                    &mut w,
                    "config parent does not exist yet and will be created on apply: ",
                    p.as_str(),
                );
            }
        },
        None => {},
    }
    w
}

/// The warnings a template reports.
pub open spec fn template_warning_lines(
    o: McpConfigOptions,
    target: Seq<char>,
    c: PathChecks,
    repo_exists: bool,
) -> Lines {
    let base = path_warning_lines(template_command(o), o.project_path@, o.database_path@, target, c);
    let a = if o.cargo_run && !repo_exists {
        base.push("B3 repo path does not exist yet: "@ + o.repo_path@)
    } else {
        base
    };
    let b = if o.cargo_run {
        a.push(
            "cargo-run templates are useful for local source checkouts but start more slowly than installed binaries"@,
        )
    } else {
        a
    };
    b.push("generated template is dry-run only; no Cursor or Codex config file was written"@)
}

/// Warnings for a template: the path warnings, and notes on the source
/// checkout and on nothing being written.
pub fn mcp_config_warnings(
    options: &McpConfigOptions,
    target_path: &str,
    checks: PathChecks,
    repo_exists: bool,
) -> (r: Vec<String>)
    ensures
        strings_view(r@) == template_warning_lines(*options, target_path@, checks, repo_exists),
{
    let command = mcp_command(options);
    let mut w = path_warnings(
        command.as_str(),
        options.project_path.as_str(),
        options.database_path.as_str(),
        target_path,
        checks,
    );
    if options.cargo_run && !repo_exists {
        push_line2(&mut w, "B3 repo path does not exist yet: ", options.repo_path.as_str());
    }
    if options.cargo_run {
        push_line1(&mut w, "cargo-run templates are useful for local source checkouts but start more slowly than installed binaries");
    }
    push_line1(&mut w, "generated template is dry-run only; no Cursor or Codex config file was written");
    w
}

/// Each warning as a report line.
pub open spec fn warning_lines(ws: Lines) -> Lines {
    ws.map_values(|w: Seq<char>| "warning: "@ + w)
}

fn push_warnings(v: &mut Vec<String>, warnings: &Vec<String>)
    ensures
        strings_view(final(v)@) == strings_view(old(v)@) + warning_lines(strings_view(warnings@)),
{
    let ghost start = strings_view(v@);
    let ghost ws = strings_view(warnings@);
    let mut i: usize = 0;
    while i < warnings.len()
        invariant
            ws == strings_view(warnings@),
            i <= warnings.len(),
            strings_view(v@) == start + warning_lines(ws.take(i as int)),
        decreases warnings.len() - i,
    {
        assert(ws[i as int] == warnings@[i as int]@);
        push_line2(v, "warning: ", warnings[i].as_str());
        i += 1;
        assert(warning_lines(ws.take(i as int)) =~= warning_lines(ws.take(i - 1)).push(
            "warning: "@ + ws[i - 1],
        ));
    }
    assert(ws.take(i as int) =~= ws);
}

fn joined_lines(v: &Vec<String>) -> (r: String)
    ensures
        r@ == joined_with(strings_view(v@), "\n"@),
{
    let mut out: Vec<char> = Vec::new();
    push_joined(&mut out, v, "\n");
    assert(out@ =~= joined_with(strings_view(v@), "\n"@));
    string_from_chars(&out)
}

pub open spec fn mode_text(applied: bool) -> Seq<char> {
    if applied {
        "applied"@
    } else {
        "dry-run"@
    }
}

/// The lines of an install report.
pub open spec fn install_report_lines(o: InstallOptions, p: InstallPlan) -> Lines {
    let head: Lines = seq![
        "agent: "@ + agent_text(o.agent),
        "target: "@ + p.target_path@,
        "mode: "@ + mode_text(p.applied),
        "profile: "@ + profile_text(o.profile),
    ];
    let with_backup = match opt_view(p.backup_path) {
        Some(b) => head.push("backup: "@ + b),
        None => head,
    };
    let body = with_backup + warning_lines(strings_view(p.warnings@)) + seq![
        "generated config:"@,
        p.content@,
        next_steps_text(o.project_path@, o.database_path@),
        "hooks: disabled by default; no shell interception or command capture installed"@,
    ];
    if p.applied {
        body
    } else {
        body.push("next step: rerun with --apply to write this config"@)
    }
}

/// The report of an install plan.
pub fn render_install_plan(options: &InstallOptions, plan: &InstallPlan) -> (r: String)
    ensures
        r@ == joined_with(install_report_lines(*options, *plan), "\n"@),
{
    let mut lines: Vec<String> = Vec::new();
    assert(strings_view(lines@) =~= Seq::<Seq<char>>::empty());
    push_line2(&mut lines, "agent: ", options.agent.as_str());
    push_line2(&mut lines, "target: ", plan.target_path.as_str());
    push_line2(&mut lines, "mode: ", if plan.applied { "applied" } else { "dry-run" });
    push_line2(&mut lines, "profile: ", options.profile.as_str());
    match &plan.backup_path {
        Some(b) => push_line2(&mut lines, "backup: ", b.as_str()),
        None => {},
    }
    push_warnings(&mut lines, &plan.warnings);
    push_line1(&mut lines, "generated config:");
    push_line1(&mut lines, plan.content.as_str());
    let steps = next_steps(options.project_path.as_str(), options.database_path.as_str());
    push_line1(&mut lines, steps.as_str());
    push_line1(&mut lines, "hooks: disabled by default; no shell interception or command capture installed");
    if !plan.applied {
        push_line1(&mut lines, "next step: rerun with --apply to write this config");
    }
    assert(strings_view(lines@) =~= install_report_lines(*options, *plan));
    joined_lines(&lines)
}

/// The lines of an uninstall report.
pub open spec fn uninstall_report_lines(o: UninstallOptions, p: InstallPlan) -> Lines {
    let head: Lines = seq![
        "agent: "@ + agent_text(o.agent),
        "target: "@ + p.target_path@,
        "mode: "@ + mode_text(p.applied),
        "removed server: "@ + o.server_name@,
    ];
    let with_backup = match opt_view(p.backup_path) {
        Some(b) => head.push("backup: "@ + b),
        None => head,
    };
    let body = with_backup + warning_lines(strings_view(p.warnings@)) + seq![
        "resulting config:"@,
        p.content@,
    ];
    if p.applied {
        body
    } else {
        body.push("next step: rerun with --apply to write this config"@)
    }
}

/// The report of an uninstall plan.
pub fn render_uninstall_plan(options: &UninstallOptions, plan: &InstallPlan) -> (r: String)
    ensures
        r@ == joined_with(uninstall_report_lines(*options, *plan), "\n"@),
{
    let mut lines: Vec<String> = Vec::new();
    assert(strings_view(lines@) =~= Seq::<Seq<char>>::empty());
    push_line2(&mut lines, "agent: ", options.agent.as_str());
    push_line2(&mut lines, "target: ", plan.target_path.as_str());
    push_line2(&mut lines, "mode: ", if plan.applied { "applied" } else { "dry-run" });
    push_line2(&mut lines, "removed server: ", options.server_name.as_str());
    match &plan.backup_path {
        Some(b) => push_line2(&mut lines, "backup: ", b.as_str()),
        None => {},
    }
    push_warnings(&mut lines, &plan.warnings);
    push_line1(&mut lines, "resulting config:");
    push_line1(&mut lines, plan.content.as_str());
    if !plan.applied {
        push_line1(&mut lines, "next step: rerun with --apply to write this config");
    }
    assert(strings_view(lines@) =~= uninstall_report_lines(*options, *plan));
    joined_lines(&lines)
}

/// The lines of a template report.
pub open spec fn template_report_lines(o: McpConfigOptions, p: McpConfigPlan) -> Lines {
    seq![
        "agent: "@ + agent_text(o.agent),
        "target: "@ + p.target_path@,
        "mode: dry-run"@,
        "runtime mode: "@ + (if o.cargo_run {
            "cargo-run"@
        } else {
            "binary"@
        }),
        "profile: "@ + profile_text(o.profile),
    ] + warning_lines(strings_view(p.warnings@)) + seq![
        "generated config template:"@,
        p.content@,
        "write safety: print-only; use b3 install --agent <codex|cursor> --apply to merge config with backups"@,
        next_steps_text(o.project_path@, o.database_path@),
        "Git MCP tools: not exposed by this setup helper; existing B3 MCP tools are unchanged"@,
    ]
}

/// The report of a printed template.
pub fn render_mcp_config_plan(options: &McpConfigOptions, plan: &McpConfigPlan) -> (r: String)
    ensures
        r@ == joined_with(template_report_lines(*options, *plan), "\n"@),
{
    let mut lines: Vec<String> = Vec::new();
    assert(strings_view(lines@) =~= Seq::<Seq<char>>::empty());
    push_line2(&mut lines, "agent: ", options.agent.as_str());
    push_line2(&mut lines, "target: ", plan.target_path.as_str());
    push_line1(&mut lines, "mode: dry-run");
    push_line2(&mut lines, "runtime mode: ", if options.cargo_run { "cargo-run" } else { "binary" });
    push_line2(&mut lines, "profile: ", options.profile.as_str());
    push_warnings(&mut lines, &plan.warnings);
    push_line1(&mut lines, "generated config template:");
    push_line1(&mut lines, plan.content.as_str());
    push_line1(&mut lines, "write safety: print-only; use b3 install --agent <codex|cursor> --apply to merge config with backups");
    let steps = next_steps(options.project_path.as_str(), options.database_path.as_str());
    push_line1(&mut lines, steps.as_str());
    push_line1(&mut lines, "Git MCP tools: not exposed by this setup helper; existing B3 MCP tools are unchanged");
    assert(strings_view(lines@) =~= template_report_lines(*options, *plan));
    joined_lines(&lines)
}

/// A parent directory's text, `.` when there is none.
pub open spec fn parent_or_here(path: Seq<char>) -> Seq<char> {
    match path_parent(path) {
        Some(p) => p,
        None => "."@,
    }
}

fn parent_or_here_exec(path: &str) -> (r: String)
    ensures
        r@ == parent_or_here(path@),
{
    match parent_of(path) {
        Some(p) => p,
        None => ".".to_owned(),
    }
}

/// The lines of the doctor's report.
pub open spec fn doctor_lines(o: DoctorOptions, c: DoctorChecks) -> Lines {
    seq![
        "B3 doctor"@,
        check_line_text("mcp runtime command"@, c.command_exists, o.command_path@),
        check_line_text("project path"@, c.project_exists, o.project_path@),
        check_line_text(
            "database parent"@,
            c.database_parent_exists,
            parent_or_here(o.database_path@),
        ),
        check_line_text("database file"@, c.database_exists, o.database_path@),
        check_line_text(
            "control port 7777 availability"@,
            c.control_port_available,
            "127.0.0.1:7777"@,
        ),
        "INFO web UI expected port: 127.0.0.1:8888"@,
        check_line_text(
            "codex config parent"@,
            c.codex_parent_exists,
            parent_or_here(o.codex_config_path@),
        ),
        check_line_text(
            "cursor config parent"@,
            c.cursor_parent_exists || c.project_exists,
            parent_or_here(o.cursor_config_path@),
        ),
        "OK selected profile: "@ + profile_text(o.profile),
        "INFO hooks_enabled=false; hooks are not installed or enabled by this command"@,
        next_steps_text(o.project_path@, o.database_path@),
    ]
}

/// The doctor's checklist of local paths, ports and settings; `checks`
/// says what was found.
pub fn run_doctor(options: &DoctorOptions, checks: DoctorChecks) -> (r: String)
    ensures
        r@ == joined_with(doctor_lines(*options, checks), "\n"@),
{
    let mut lines: Vec<String> = Vec::new();
    assert(strings_view(lines@) =~= Seq::<Seq<char>>::empty());
    push_line1(&mut lines, "B3 doctor");
    let l = check_line("mcp runtime command", checks.command_exists, options.command_path.as_str());
    push_line1(&mut lines, l.as_str());
    let l = check_line("project path", checks.project_exists, options.project_path.as_str());
    push_line1(&mut lines, l.as_str());
    let parent = parent_or_here_exec(options.database_path.as_str());
    let l = check_line("database parent", checks.database_parent_exists, parent.as_str());
    push_line1(&mut lines, l.as_str());
    let l = check_line("database file", checks.database_exists, options.database_path.as_str());
    push_line1(&mut lines, l.as_str());
    let l = check_line(
        "control port 7777 availability",
        checks.control_port_available,
        "127.0.0.1:7777",
    );
    push_line1(&mut lines, l.as_str());
    push_line1(&mut lines, "INFO web UI expected port: 127.0.0.1:8888");
    let parent = parent_or_here_exec(options.codex_config_path.as_str());
    let l = check_line("codex config parent", checks.codex_parent_exists, parent.as_str());
    push_line1(&mut lines, l.as_str());
    let parent = parent_or_here_exec(options.cursor_config_path.as_str());
    let l = check_line(
        "cursor config parent",
        checks.cursor_parent_exists || checks.project_exists,
        parent.as_str(),
    );
    push_line1(&mut lines, l.as_str());
    push_line2(&mut lines, "OK selected profile: ", options.profile.as_str());
    push_line1(&mut lines, "INFO hooks_enabled=false; hooks are not installed or enabled by this command");
    let steps = next_steps(options.project_path.as_str(), options.database_path.as_str());
    push_line1(&mut lines, steps.as_str());
    assert(strings_view(lines@) =~= doctor_lines(*options, checks));
    joined_lines(&lines)
}

/// The doctor's database file line reads `OK database file: <path>` exactly
/// when the database file was found, and `WARN database file: <path>`
/// otherwise, whatever was found of its parent directory; the report holds
/// that line.
pub proof fn lemma_doctor_database_line(o: DoctorOptions, c: DoctorChecks)
    ensures
        doctor_lines(o, c)[4] == (if c.database_exists {
            "OK database file: "@
        } else {
            "WARN database file: "@
        }) + o.database_path@,
        contains(
            joined_with(doctor_lines(o, c), "\n"@),
            (if c.database_exists {
                "OK database file: "@
            } else {
                "WARN database file: "@
            }) + o.database_path@,
        ),
{
    reveal_strlit("OK");
    reveal_strlit("WARN");
    reveal_strlit(" ");
    reveal_strlit("database file");
    reveal_strlit(": ");
    reveal_strlit("OK database file: ");
    reveal_strlit("WARN database file: ");
    let line = check_line_text("database file"@, c.database_exists, o.database_path@);
    if c.database_exists {
        assert(line =~= "OK database file: "@ + o.database_path@);
    } else {
        assert(line =~= "WARN database file: "@ + o.database_path@);
    }
    assert(doctor_lines(o, c)[4] == line);
    lemma_joined_contains(doctor_lines(o, c), "\n"@, 4);
}

} // verus!
