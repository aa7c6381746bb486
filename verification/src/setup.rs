//! Local agent setup: which agent and tool profile a config is for, where
//! the config lives, and the text the setup commands print. Nothing here
//! runs a command, starts a server or touches the network.

pub mod codex;
pub mod codex_rewrite;
pub mod cursor;
pub mod json_text;
pub mod cli;
pub mod plan;

use vstd::prelude::*;

use crate::clock::unix_seconds_now;
use crate::paths::{
    file_name_of, join, join_path, path_file_name, path_with_file_name, with_file_name_of,
};
use crate::text::{chars_of, dec, eq_str, push_dec_u64, push_str, string_from_chars};

verus! {

broadcast use vstd::string::group_string_axioms;

/// The coding agent a config is written for.
#[derive(Debug, Clone, Copy, PartialEq, Eq, Structural)]
pub enum AgentKind {
    Codex,
    Cursor,
}

/// The set of MCP tools a server exposes.
#[derive(Debug, Clone, Copy, PartialEq, Eq, Structural)]
pub enum ToolProfileName {
    Tiny,
    Optimized,
    Full,
    Debug,
    Readonly,
    Editing,
    WebApp,
    Enterprise,
}

pub open spec fn agent_text(agent: AgentKind) -> Seq<char> {
    match agent {
        AgentKind::Codex => "codex"@,
        AgentKind::Cursor => "cursor"@,
    }
}

pub open spec fn profile_text(profile: ToolProfileName) -> Seq<char> {
    match profile {
        ToolProfileName::Tiny => "tiny"@,
        ToolProfileName::Optimized => "optimized"@,
        ToolProfileName::Full => "full"@,
        ToolProfileName::Debug => "debug"@,
        ToolProfileName::Readonly => "readonly"@,
        ToolProfileName::Editing => "editing"@,
        ToolProfileName::WebApp => "web-app"@,
        ToolProfileName::Enterprise => "enterprise"@,
    }
}

/// The agent a name selects.
pub open spec fn agent_named(value: Seq<char>) -> Option<AgentKind> {
    if value == "codex"@ {
        Some(AgentKind::Codex)
    } else if value == "cursor"@ {
        Some(AgentKind::Cursor)
    } else {
        None
    }
}

/// The profile a name selects.
pub open spec fn profile_named(value: Seq<char>) -> Option<ToolProfileName> {
    if value == "tiny"@ {
        Some(ToolProfileName::Tiny)
    } else if value == "optimized"@ {
        Some(ToolProfileName::Optimized)
    } else if value == "full"@ {
        Some(ToolProfileName::Full)
    } else if value == "debug"@ {
        Some(ToolProfileName::Debug)
    } else if value == "readonly"@ {
        Some(ToolProfileName::Readonly)
    } else if value == "editing"@ {
        Some(ToolProfileName::Editing)
    } else if value == "web-app"@ {
        Some(ToolProfileName::WebApp)
    } else if value == "enterprise"@ {
        Some(ToolProfileName::Enterprise)
    } else {
        None
    }
}

impl AgentKind {
    /// The agent's name.
    pub fn as_str(self) -> (r: &'static str)
        ensures
            r@ == agent_text(self),
    {
        match self {
            AgentKind::Codex => "codex",
            AgentKind::Cursor => "cursor",
        }
    }

    /// Reads an agent name: `codex` or `cursor`.
    pub fn parse(value: &str) -> (r: Result<AgentKind, String>)
        ensures
            match agent_named(value@) {
                Some(a) => r == Ok::<AgentKind, String>(a),
                None => r is Err && r->Err_0@ == "unsupported agent: "@ + value@
                    + "; supported agents: codex, cursor"@,
            },
    {
        let v = chars_of(value);
        if eq_str(&v, "codex") {
            Ok(AgentKind::Codex)
        } else if eq_str(&v, "cursor") {
            Ok(AgentKind::Cursor)
        } else {
            let mut out: Vec<char> = Vec::new();
            push_str(&mut out, "unsupported agent: ");
            push_str(&mut out, value);
            push_str(&mut out, "; supported agents: codex, cursor");
            Err(string_from_chars(&out))
        }
    }
}

impl std::str::FromStr for AgentKind {
    type Err = String;

    fn from_str(value: &str) -> (r: Result<AgentKind, String>)
        ensures
            match agent_named(value@) {
                Some(a) => r == Ok::<AgentKind, String>(a),
                None => r is Err && r->Err_0@ == "unsupported agent: "@ + value@
                    + "; supported agents: codex, cursor"@,
            },
    {
        AgentKind::parse(value)
    }
}

impl ToolProfileName {
    /// The profile's name.
    pub fn as_str(self) -> (r: &'static str)
        ensures
            r@ == profile_text(self),
    {
        match self {
            ToolProfileName::Tiny => "tiny",
            ToolProfileName::Optimized => "optimized",
            ToolProfileName::Full => "full",
            ToolProfileName::Debug => "debug",
            ToolProfileName::Readonly => "readonly",
            ToolProfileName::Editing => "editing",
            ToolProfileName::WebApp => "web-app",
            ToolProfileName::Enterprise => "enterprise",
        }
    }

    /// The profile's name as an owned string.
    pub fn to_string(self) -> (r: String)
        ensures
            r@ == profile_text(self),
    {
        self.as_str().to_owned()
    }

    /// Reads a profile name.
    pub fn parse(value: &str) -> (r: Result<ToolProfileName, String>)
        ensures
            match profile_named(value@) {
                Some(p) => r == Ok::<ToolProfileName, String>(p),
                None => r is Err && r->Err_0@ == "invalid tool profile: "@ + value@
                    + "; expected one of: tiny, optimized, full, debug, readonly, editing, web-app, enterprise"@,
            },
    {
        let v = chars_of(value);
        if eq_str(&v, "tiny") {
            Ok(ToolProfileName::Tiny)
        } else if eq_str(&v, "optimized") {
            Ok(ToolProfileName::Optimized)
        } else if eq_str(&v, "full") {
            Ok(ToolProfileName::Full)
        } else if eq_str(&v, "debug") {
            Ok(ToolProfileName::Debug)
        } else if eq_str(&v, "readonly") {
            Ok(ToolProfileName::Readonly)
        } else if eq_str(&v, "editing") {
            Ok(ToolProfileName::Editing)
        } else if eq_str(&v, "web-app") {
            Ok(ToolProfileName::WebApp)
        } else if eq_str(&v, "enterprise") {
            Ok(ToolProfileName::Enterprise)
        } else {
            let mut out: Vec<char> = Vec::new();
            push_str(&mut out, "invalid tool profile: ");
            push_str(&mut out, value);
            push_str(
                &mut out,
                "; expected one of: tiny, optimized, full, debug, readonly, editing, web-app, enterprise",
            );
            Err(string_from_chars(&out))
        }
    }
}

impl Default for ToolProfileName {
    fn default() -> (r: ToolProfileName)
        ensures
            r == ToolProfileName::Optimized,
    {
        ToolProfileName::Optimized
    }
}

impl std::str::FromStr for ToolProfileName {
    type Err = String;

    fn from_str(value: &str) -> (r: Result<ToolProfileName, String>)
        ensures
            match profile_named(value@) {
                Some(p) => r == Ok::<ToolProfileName, String>(p),
                None => r is Err && r->Err_0@ == "invalid tool profile: "@ + value@
                    + "; expected one of: tiny, optimized, full, debug, readonly, editing, web-app, enterprise"@,
            },
    {
        ToolProfileName::parse(value)
    }
}

/// Options of `b3 install`.
#[derive(Debug, Clone, PartialEq, Eq)]
pub struct InstallOptions {
    pub agent: AgentKind,
    pub server_name: String,
    pub command_path: String,
    pub project_path: String,
    pub database_path: String,
    pub profile: ToolProfileName,
    pub config_path: Option<String>,
    pub apply: bool,
    pub backup: bool,
}

/// Options of `b3 uninstall`.
#[derive(Debug, Clone, PartialEq, Eq)]
pub struct UninstallOptions {
    pub agent: AgentKind,
    pub server_name: String,
    pub project_path: String,
    pub config_path: Option<String>,
    pub apply: bool,
    pub backup: bool,
}

/// Options of `b3 doctor`.
#[derive(Debug, Clone, PartialEq, Eq)]
pub struct DoctorOptions {
    pub project_path: String,
    pub database_path: String,
    pub profile: ToolProfileName,
    pub command_path: String,
    pub codex_config_path: String,
    pub cursor_config_path: String,
}

/// Options of `b3 mcp config`.
#[derive(Debug, Clone, PartialEq, Eq)]
pub struct McpConfigOptions {
    pub agent: AgentKind,
    pub server_name: String,
    pub command_path: String,
    pub project_path: String,
    pub database_path: String,
    pub profile: ToolProfileName,
    pub config_path: Option<String>,
    pub cargo_run: bool,
    pub repo_path: String,
}

/// A printed config template and where it would go.
#[derive(Debug, Clone, PartialEq, Eq)]
pub struct McpConfigPlan {
    pub target_path: String,
    pub content: String,
    pub warnings: Vec<String>,
}

/// A config change, and whether it was written.
#[derive(Debug, Clone, PartialEq, Eq)]
pub struct InstallPlan {
    pub target_path: String,
    pub content: String,
    pub warnings: Vec<String>,
    pub applied: bool,
    pub backup_path: Option<String>,
}

/// Where an agent's config lives: the path given, else Codex's user config,
/// else the project's `.cursor/mcp.json`.
pub open spec fn config_target(
    agent: AgentKind,
    config_path: Option<String>,
    project_path: Seq<char>,
    codex_config_path: Seq<char>,
) -> Seq<char> {
    match config_path {
        Some(p) => p@,
        None => match agent {
            AgentKind::Codex => codex_config_path,
            AgentKind::Cursor => join(join(project_path, ".cursor"@), "mcp.json"@),
        },
    }
}

fn target_for(
    agent: AgentKind,
    config_path: &Option<String>,
    project_path: &str,
    codex_config_path: &str,
) -> (r: String)
    ensures
        r@ == config_target(agent, *config_path, project_path@, codex_config_path@),
{
    match config_path {
        Some(p) => p.clone(),
        None => match agent {
            AgentKind::Codex => codex_config_path.to_owned(),
            AgentKind::Cursor => {
                let dir = join_path(project_path, ".cursor");
                join_path(dir.as_str(), "mcp.json")
            },
        },
    }
}

impl InstallOptions {
    /// The config file this install edits; `codex_config_path` is the
    /// user's Codex config.
    pub fn target_path(&self, codex_config_path: &str) -> (r: String)
        ensures
            r@ == config_target(self.agent, self.config_path, self.project_path@, codex_config_path@),
    {
        target_for(self.agent, &self.config_path, self.project_path.as_str(), codex_config_path)
    }
}

impl UninstallOptions {
    /// The config file this uninstall edits; `codex_config_path` is the
    /// user's Codex config.
    pub fn target_path(&self, codex_config_path: &str) -> (r: String)
        ensures
            r@ == config_target(self.agent, self.config_path, self.project_path@, codex_config_path@),
    {
        target_for(self.agent, &self.config_path, self.project_path.as_str(), codex_config_path)
    }
}

impl McpConfigOptions {
    /// The config file this template is for; `codex_config_path` is the
    /// user's Codex config.
    pub fn target_path(&self, codex_config_path: &str) -> (r: String)
        ensures
            r@ == config_target(self.agent, self.config_path, self.project_path@, codex_config_path@),
    {
        target_for(self.agent, &self.config_path, self.project_path.as_str(), codex_config_path)
    }
}

/// The B3 home directory: `B3_HOME` as given, else `.b3` under the user
/// profile or home directory, else `.b3` here.
pub open spec fn b3_home_path(
    b3_home: Option<String>,
    userprofile: Option<String>,
    home: Option<String>,
) -> Seq<char> {
    match b3_home {
        Some(h) => h@,
        None => match userprofile {
            Some(u) => join(u@, ".b3"@),
            None => match home {
                Some(h) => join(h@, ".b3"@),
                None => ".b3"@,
            },
        },
    }
}

/// The B3 home directory, from the values of `B3_HOME`, `USERPROFILE` and
/// `HOME`.
pub fn b3_home(b3_home_var: Option<String>, userprofile: Option<String>, home: Option<String>) -> (r:
    String)
    ensures
        r@ == b3_home_path(b3_home_var, userprofile, home),
{
    match b3_home_var {
        Some(h) => h,
        None => match userprofile {
            Some(u) => join_path(u.as_str(), ".b3"),
            None => match home {
                Some(h) => join_path(h.as_str(), ".b3"),
                None => ".b3".to_owned(),
            },
        },
    }
}

/// The registry file in the B3 home directory.
pub fn registry_path(b3_home: &str) -> (r: String)
    ensures
        r@ == join(b3_home@, "registry.json"@),
{
    join_path(b3_home, "registry.json")
}

/// Codex's user config, from the values of `USERPROFILE` and `HOME`.
pub fn codex_config_path(userprofile: Option<String>, home: Option<String>) -> (r: String)
    ensures
        r@ == join(
            join(
                match userprofile {
                    Some(u) => u@,
                    None => match home {
                        Some(h) => h@,
                        None => "."@,
                    },
                },
                ".codex"@,
            ),
            "config.toml"@,
        ),
{
    let base = match userprofile {
        Some(u) => u,
        None => match home {
            Some(h) => h,
            None => ".".to_owned(),
        },
    };
    let dir = join_path(base.as_str(), ".codex");
    join_path(dir.as_str(), "config.toml")
}

/// The name a backup of `path` gets at time `secs`.
pub open spec fn backup_name(path: Seq<char>, secs: nat) -> Seq<char> {
    let stem = match path_file_name(path) {
        Some(f) => f,
        None => "config"@,
    };
    stem + ".b3-backup-"@ + dec(secs)
}

/// The backup path for `path` taken at time `secs`: its file name with
/// `.b3-backup-` and the time appended.
pub fn backup_path_at(path: &str, secs: u64) -> (r: String)
    ensures
        r@ == path_with_file_name(path@, backup_name(path@, secs as nat)),
{
    let mut name: Vec<char> = Vec::new();
    match file_name_of(path) {
        Some(f) => push_str(&mut name, f.as_str()),
        None => push_str(&mut name, "config"),
    }
    push_str(&mut name, ".b3-backup-");
    push_dec_u64(&mut name, secs);
    assert(name@ =~= backup_name(path@, secs as nat));
    let name_text = string_from_chars(&name);
    with_file_name_of(path, name_text.as_str())
}

/// The backup path for `path` now.
pub fn backup_path_for(path: &str) -> (r: String)
    ensures
        exists|secs: nat| r@ == path_with_file_name(path@, backup_name(path@, secs)),
{
    backup_path_at(path, unix_seconds_now())
}

/// The commands to initialise, index and serve a project.
pub open spec fn next_steps_text(project: Seq<char>, database: Seq<char>) -> Seq<char> {
    "next steps:\n  b3-control-server init --project \""@ + project + "\" --database \""@ + database
        + "\"\n  b3-control-server index --project \""@ + project + "\" --database \""@ + database
        + "\"\n  b3-control-server serve --project \""@ + project + "\" --database \""@ + database
        + "\" --port 7777"@
}

/// The commands to initialise, index and serve a project.
pub fn next_steps(project_path: &str, database_path: &str) -> (r: String)
    ensures
        r@ == next_steps_text(project_path@, database_path@),
{
    let mut out: Vec<char> = Vec::new();
    push_str(&mut out, "next steps:\n  b3-control-server init --project \"");
    push_str(&mut out, project_path);
    push_str(&mut out, "\" --database \"");
    push_str(&mut out, database_path);
    push_str(&mut out, "\"\n  b3-control-server index --project \"");
    push_str(&mut out, project_path);
    push_str(&mut out, "\" --database \"");
    push_str(&mut out, database_path);
    push_str(&mut out, "\"\n  b3-control-server serve --project \"");
    push_str(&mut out, project_path);
    push_str(&mut out, "\" --database \"");
    push_str(&mut out, database_path);
    push_str(&mut out, "\" --port 7777");
    assert(out@ =~= next_steps_text(project_path@, database_path@));
    string_from_chars(&out)
}

/// One line of a doctor report.
pub open spec fn check_line_text(name: Seq<char>, ok: bool, detail: Seq<char>) -> Seq<char> {
    (if ok {
        "OK"@
    } else {
        "WARN"@
    }) + " "@ + name + ": "@ + detail
}

/// One line of a doctor report: `OK` or `WARN`, the check and its detail.
pub fn check_line(name: &str, ok: bool, detail: &str) -> (r: String)
    ensures
        r@ == check_line_text(name@, ok, detail@),
{
    let mut out: Vec<char> = Vec::new();
    if ok {
        push_str(&mut out, "OK");
    } else {
        push_str(&mut out, "WARN");
    }
    push_str(&mut out, " ");
    push_str(&mut out, name);
    push_str(&mut out, ": ");
    push_str(&mut out, detail);
    assert(out@ =~= check_line_text(name@, ok, detail@));
    string_from_chars(&out)
}

/// The profile advice `b3 mcp profiles` prints.
pub open spec fn profile_recommendations_text() -> Seq<char> {
    "B3 MCP profiles\nrecommended: optimized - everyday Cursor/Codex use\noptional: full - broader tool surface when needed\nminimal: tiny - smallest high-value manifest\navailable: debug, readonly, editing, web-app, enterprise\nGit Intelligence MCP tools: not exposed in Phase 21.4.1"@
}

/// Which tool profile to use when.
pub fn mcp_profile_recommendations() -> (r: String)
    ensures
        r@ == profile_recommendations_text(),
{
    "B3 MCP profiles\nrecommended: optimized - everyday Cursor/Codex use\noptional: full - broader tool surface when needed\nminimal: tiny - smallest high-value manifest\navailable: debug, readonly, editing, web-app, enterprise\nGit Intelligence MCP tools: not exposed in Phase 21.4.1".to_owned()
}

/// The command-line synopsis.
pub open spec fn usage_text() -> Seq<char> {
    "usage:\n  b3 mcp config <codex|cursor> --project <path> --database <path> --profile <profile> [--cargo-run --repo <path>]\n  b3 mcp doctor --project <path> --database <path> --profile <profile>\n  b3 mcp profiles\n  b3 install --agent <codex|cursor> --project <path> --database <path> --profile <profile> [--dry-run|--apply] [--backup|--no-backup]\n  b3 uninstall --agent <codex|cursor> [--dry-run|--apply]\n  b3 doctor --project <path> --database <path> --profile <profile>\n  b3 register <project-path> [--name <name>] [--id <id>] [--database <path>] [--tag <tag>] [--update]\n  b3 unregister <project-id> [--dry-run|--apply]\n  b3 list\n  b3 status <project-id>\n  b3 group create <group-name> [--id <id>] [--description <text>]\n  b3 group add <group-id> <project-id>\n  b3 group remove <group-id> <project-id>\n  b3 group list\n  b3 group status <group-id>"@
}

/// The command-line synopsis.
pub fn usage() -> (r: String)
    ensures
        r@ == usage_text(),
{
    "usage:\n  b3 mcp config <codex|cursor> --project <path> --database <path> --profile <profile> [--cargo-run --repo <path>]\n  b3 mcp doctor --project <path> --database <path> --profile <profile>\n  b3 mcp profiles\n  b3 install --agent <codex|cursor> --project <path> --database <path> --profile <profile> [--dry-run|--apply] [--backup|--no-backup]\n  b3 uninstall --agent <codex|cursor> [--dry-run|--apply]\n  b3 doctor --project <path> --database <path> --profile <profile>\n  b3 register <project-path> [--name <name>] [--id <id>] [--database <path>] [--tag <tag>] [--update]\n  b3 unregister <project-id> [--dry-run|--apply]\n  b3 list\n  b3 status <project-id>\n  b3 group create <group-name> [--id <id>] [--description <text>]\n  b3 group add <group-id> <project-id>\n  b3 group remove <group-id> <project-id>\n  b3 group list\n  b3 group status <group-id>".to_owned()
}

} // verus!
