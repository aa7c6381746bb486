//! The `b3` command line: how its arguments become the options of each
//! command. The working directory and the default paths it needs are
//! handed in; nothing here reads the environment.
use vstd::prelude::*;

use crate::paths::{absolute, absolute_path, join, join_path, opt_view};
use crate::setup::{
    agent_named, profile_named, usage, usage_text, AgentKind, DoctorOptions, InstallOptions,
    McpConfigOptions, ToolProfileName, UninstallOptions,
};
use crate::registry::{GroupCreateOptions, GroupMembershipOptions, RegisterOptions, RegistryMutationOptions};
use crate::text::{push_str, str_eq, string_from_chars, Lines};

verus! {

broadcast use vstd::string::group_string_axioms;

/// The options of an install as plain values.
pub struct InstallView {
    pub agent: AgentKind,
    pub server_name: Seq<char>,
    pub command_path: Seq<char>,
    pub project_path: Seq<char>,
    pub database_path: Seq<char>,
    pub profile: ToolProfileName,
    pub config_path: Option<Seq<char>>,
    pub apply: bool,
    pub backup: bool,
}

impl View for InstallOptions {
    type V = InstallView;

    open spec fn view(&self) -> InstallView {
        InstallView {
            agent: self.agent,
            server_name: self.server_name@,
            command_path: self.command_path@,
            project_path: self.project_path@,
            database_path: self.database_path@,
            profile: self.profile,
            config_path: opt_view(self.config_path),
            apply: self.apply,
            backup: self.backup,
        }
    }
}

/// The refusal of a flag given without its value.
pub open spec fn missing_value(flag: Seq<char>) -> Seq<char> {
    flag + " requires a value"@
}

/// The refusal of an unknown tool profile name.
pub open spec fn profile_error(value: Seq<char>) -> Seq<char> {
    "invalid tool profile: "@ + value
        + "; expected one of: tiny, optimized, full, debug, readonly, editing, web-app, enterprise"@
}

/// The refusal of an unknown agent name.
pub open spec fn agent_error(value: Seq<char>) -> Seq<char> {
    "unsupported agent: "@ + value + "; supported agents: codex, cursor"@
}

/// The flags of an install that take a value.
pub open spec fn install_value_flag(a: Seq<char>) -> bool {
    a == "--server-name"@ || a == "--command"@ || a == "--project"@ || a == "--database"@
        || a == "--profile"@ || a == "--tool-profile"@ || a == "--config"@
}

/// Install options with the flag `a` set to `v`.
pub open spec fn set_install_value(o: InstallView, a: Seq<char>, v: Seq<char>, cwd: Seq<char>) -> Result<InstallView, Seq<char>> {
    if a == "--server-name"@ {
        Ok(InstallView { server_name: v, ..o })
    } else if a == "--command"@ {
        Ok(InstallView { command_path: v, ..o })
    } else if a == "--project"@ {
        Ok(InstallView { project_path: absolute(v, cwd), ..o })
    } else if a == "--database"@ {
        Ok(InstallView { database_path: absolute(v, cwd), ..o })
    } else if a == "--profile"@ || a == "--tool-profile"@ {
        match profile_named(v) {
            Some(p) => Ok(InstallView { profile: p, ..o }),
            None => Err(profile_error(v)),
        }
    } else {
        Ok(InstallView { config_path: Some(v), ..o })
    }
}

/// The install options after reading the arguments from `i` on, or the
/// refusal of the first argument that does not fit.
pub open spec fn install_flags(args: Lines, i: int, o: InstallView, cwd: Seq<char>) -> Result<InstallView, Seq<char>>
    decreases args.len() - i,
{
    if i < 0 || i >= args.len() {
        Ok(o)
    } else {
        let a = args[i];
        if install_value_flag(a) {
            if i + 1 >= args.len() {
                Err(missing_value(a))
            } else {
                match set_install_value(o, a, args[i + 1], cwd) {
                    Ok(o2) => install_flags(args, i + 2, o2, cwd),
                    Err(e) => Err(e),
                }
            }
        } else if a == "--dry-run"@ {
            install_flags(args, i + 1, InstallView { apply: false, ..o }, cwd)
        } else if a == "--apply"@ || a == "--write"@ {
            install_flags(args, i + 1, InstallView { apply: true, ..o }, cwd)
        } else if a == "--backup"@ {
            install_flags(args, i + 1, InstallView { backup: true, ..o }, cwd)
        } else if a == "--no-backup"@ {
            install_flags(args, i + 1, InstallView { backup: false, ..o }, cwd)
        } else if a == "--help"@ || a == "-h"@ {
            Err(usage_text())
        } else {
            Err("unknown install argument: "@ + a)
        }
    }
}

/// Neither backup flag takes a value, and each differs from the other
/// install flags.
proof fn lemma_backup_flags_are_plain()
    ensures
        !install_value_flag("--no-backup"@),
        !install_value_flag("--backup"@),
        "--no-backup"@ != "--dry-run"@,
        "--no-backup"@ != "--apply"@,
        "--no-backup"@ != "--write"@,
        "--no-backup"@ != "--backup"@,
        "--backup"@ != "--dry-run"@,
        "--backup"@ != "--apply"@,
        "--backup"@ != "--write"@,
{
    reveal_strlit("--server-name");
    reveal_strlit("--command");
    reveal_strlit("--project");
    reveal_strlit("--database");
    reveal_strlit("--profile");
    reveal_strlit("--tool-profile");
    reveal_strlit("--config");
    reveal_strlit("--dry-run");
    reveal_strlit("--apply");
    reveal_strlit("--write");
    reveal_strlit("--backup");
    reveal_strlit("--no-backup");
    let n = "--no-backup"@;
    let b = "--backup"@;
    assert(n[2] == 'n' && b[2] == 'b');
    assert(n[2] != "--server-name"@[2] && b[2] != "--server-name"@[2]);
    assert(n[2] != "--command"@[2] && b[2] != "--command"@[2]);
    assert(n[2] != "--project"@[2] && b[2] != "--project"@[2]);
    assert(n[2] != "--database"@[2] && b[2] != "--database"@[2]);
    assert(n[2] != "--profile"@[2] && b[2] != "--profile"@[2]);
    assert(n[2] != "--tool-profile"@[2] && b[2] != "--tool-profile"@[2]);
    assert(n[2] != "--config"@[2] && b[2] != "--config"@[2]);
    assert(n[2] != "--dry-run"@[2] && b[2] != "--dry-run"@[2]);
    assert(n[2] != "--apply"@[2] && b[2] != "--apply"@[2]);
    assert(n[2] != "--write"@[2] && b[2] != "--write"@[2]);
}

/// The last backup flag decides for install too: one more `--no-backup`
/// after arguments that read well gives the same options with the backup
/// off, and one more `--backup` gives them with the backup on.
pub proof fn lemma_install_last_backup_flag_wins(args: Lines, i: int, o: InstallView, cwd: Seq<char>)
    requires
        0 <= i <= args.len(),
        install_flags(args, i, o, cwd) is Ok,
    ensures
        install_flags(args.push("--no-backup"@), i, o, cwd) == Ok::<InstallView, Seq<char>>(
            InstallView { backup: false, ..install_flags(args, i, o, cwd)->Ok_0 },
        ),
        install_flags(args.push("--backup"@), i, o, cwd) == Ok::<InstallView, Seq<char>>(
            InstallView { backup: true, ..install_flags(args, i, o, cwd)->Ok_0 },
        ),
    decreases args.len() - i,
{
    reveal_strlit("--server-name");
    reveal_strlit("--command");
    reveal_strlit("--project");
    reveal_strlit("--database");
    reveal_strlit("--profile");
    reveal_strlit("--tool-profile");
    reveal_strlit("--config");
    reveal_strlit("--dry-run");
    reveal_strlit("--apply");
    reveal_strlit("--write");
    reveal_strlit("--backup");
    reveal_strlit("--no-backup");
    reveal_strlit("--help");
    reveal_strlit("-h");
    let no = args.push("--no-backup"@);
    let yes = args.push("--backup"@);
    if i == args.len() {
        assert(no[i] == "--no-backup"@ && yes[i] == "--backup"@);
        lemma_backup_flags_are_plain();
        assert(install_flags(no, i, o, cwd) == install_flags(no, i + 1, InstallView { backup: false, ..o }, cwd));
        assert(install_flags(no, i + 1, InstallView { backup: false, ..o }, cwd) == Ok::<
            InstallView,
            Seq<char>,
        >(InstallView { backup: false, ..o }));
        assert(install_flags(yes, i + 1, InstallView { backup: true, ..o }, cwd) == Ok::<
            InstallView,
            Seq<char>,
        >(InstallView { backup: true, ..o }));
    } else {
        let a = args[i];
        assert(no[i] == a && yes[i] == a);
        if install_value_flag(a) {
            assert(i + 1 < args.len());
            assert(no[i + 1] == args[i + 1] && yes[i + 1] == args[i + 1]);
            let o2 = set_install_value(o, a, args[i + 1], cwd)->Ok_0;
            lemma_install_last_backup_flag_wins(args, i + 2, o2, cwd);
        } else if a == "--dry-run"@ {
            lemma_install_last_backup_flag_wins(args, i + 1, InstallView { apply: false, ..o }, cwd);
        } else if a == "--apply"@ || a == "--write"@ {
            lemma_install_last_backup_flag_wins(args, i + 1, InstallView { apply: true, ..o }, cwd);
        } else if a == "--backup"@ {
            lemma_install_last_backup_flag_wins(args, i + 1, InstallView { backup: true, ..o }, cwd);
        } else if a == "--no-backup"@ {
            lemma_install_last_backup_flag_wins(args, i + 1, InstallView { backup: false, ..o }, cwd);
        }
    }
}

/// The views of the arguments.
pub open spec fn arg_texts(args: Seq<String>) -> Lines {
    args.map_values(|s: String| s@)
}

fn message2(a: &str, b: &str) -> (r: String)
    ensures
        r@ == a@ + b@,
{
    let mut out: Vec<char> = Vec::new();
    push_str(&mut out, a);
    push_str(&mut out, b);
    string_from_chars(&out)
}

fn read_profile(value: &str) -> (r: Result<ToolProfileName, String>)
    ensures
        match profile_named(value@) {
            Some(p) => r == Ok::<ToolProfileName, String>(p),
            None => r is Err && r->Err_0@ == profile_error(value@),
        },
{
    ToolProfileName::parse(value)
}

/// Reads the shared install flags from `args[start..]` into `options`.
fn parse_shared_install_options(args: &Vec<String>, start: usize, options: &mut InstallOptions, cwd: &str) -> (r: Result<(), String>)
    ensures
        match install_flags(arg_texts(args@), start as int, old(options)@, cwd@) {
            Ok(o) => r is Ok && final(options)@ == o,
            Err(e) => r is Err && r->Err_0@ == e,
        },
{
    let ghost texts = arg_texts(args@);
    let ghost target = install_flags(texts, start as int, options@, cwd@);
    let mut i = start;
    while i < args.len()
        invariant
            texts == arg_texts(args@),
            i >= start,
            target == install_flags(texts, start as int, old(options)@, cwd@),
            target == install_flags(texts, i as int, options@, cwd@),
        decreases args.len() - i,
    {
        let a = args[i].as_str();
        assert(texts[i as int] == a@);
        if str_eq(a, "--server-name") || str_eq(a, "--command") || str_eq(a, "--project") || str_eq(a, "--database")
            || str_eq(a, "--profile") || str_eq(a, "--tool-profile") || str_eq(a, "--config") {
            if i + 1 >= args.len() {
                return Err(message2(a, " requires a value"));
            }
            let v = args[i + 1].as_str();
            assert(texts[i + 1] == v@);
            if str_eq(a, "--server-name") {
                options.server_name = v.to_owned();
            } else if str_eq(a, "--command") {
                options.command_path = v.to_owned();
            } else if str_eq(a, "--project") {
                options.project_path = absolute_path(v, cwd);
            } else if str_eq(a, "--database") {
                options.database_path = absolute_path(v, cwd);
            } else if str_eq(a, "--profile") || str_eq(a, "--tool-profile") {
                match read_profile(v) {
                    Ok(p) => {
                        options.profile = p;
                    },
                    Err(e) => {
                        return Err(e);
                    },
                }
            } else {
                options.config_path = Some(v.to_owned());
            }
            i = i + 2;
        } else if str_eq(a, "--dry-run") {
            options.apply = false;
            i = i + 1;
        } else if str_eq(a, "--apply") || str_eq(a, "--write") {
            options.apply = true;
            i = i + 1;
        } else if str_eq(a, "--backup") {
            options.backup = true;
            i = i + 1;
        } else if str_eq(a, "--no-backup") {
            options.backup = false;
            i = i + 1;
        } else if str_eq(a, "--help") || str_eq(a, "-h") {
            return Err(usage());
        } else {
            return Err(message2("unknown install argument: ", a));
        }
    }
    Ok(())
}

/// The project path a command uses unless told otherwise: the working
/// directory.
pub open spec fn default_project(cwd: Seq<char>) -> Seq<char> {
    absolute("."@, cwd)
}

/// A project's database: `.b3/b3.db` in the project.
pub open spec fn default_database(project: Seq<char>) -> Seq<char> {
    join(join(project, ".b3"@), "b3.db"@)
}

/// A project's Cursor config: `.cursor/mcp.json` in the project.
pub open spec fn default_cursor_config(project: Seq<char>) -> Seq<char> {
    join(join(project, ".cursor"@), "mcp.json"@)
}

pub open spec fn install_defaults(agent: AgentKind, cwd: Seq<char>) -> InstallView {
    InstallView {
        agent,
        server_name: "b3"@,
        command_path: "b3-mcp-runtime"@,
        project_path: default_project(cwd),
        database_path: default_database(default_project(cwd)),
        profile: ToolProfileName::Optimized,
        config_path: None,
        apply: false,
        backup: true,
    }
}

fn project_and_database(cwd: &str) -> (r: (String, String))
    ensures
        r.0@ == default_project(cwd@),
        r.1@ == default_database(default_project(cwd@)),
{
    let project = absolute_path(".", cwd);
    let b3_dir = join_path(project.as_str(), ".b3");
    let database = join_path(b3_dir.as_str(), "b3.db");
    (project, database)
}

impl InstallOptions {
    /// The options of an install for `agent` before any flag is read; `cwd`
    /// is the working directory.
    pub fn default_for(agent: AgentKind, cwd: &str) -> (r: InstallOptions)
        ensures
            r@ == install_defaults(agent, cwd@),
    {
        let (project_path, database_path) = project_and_database(cwd);
        InstallOptions {
            agent,
            server_name: "b3".to_owned(),
            command_path: "b3-mcp-runtime".to_owned(),
            project_path,
            database_path,
            profile: ToolProfileName::Optimized,
            config_path: None,
            apply: false,
            backup: true,
        }
    }
}

/// Where `--agent` names the agent: the last agent named and the other
/// arguments, or the refusal of the first `--agent` without a valid value.
pub open spec fn agent_scan(args: Lines, i: int, agent: Option<AgentKind>, rest: Lines) -> Result<(Option<AgentKind>, Lines), Seq<char>>
    decreases args.len() - i,
{
    if i < 0 || i >= args.len() {
        Ok((agent, rest))
    } else if args[i] == "--agent"@ {
        if i + 1 >= args.len() {
            Err(missing_value("--agent"@))
        } else {
            match agent_named(args[i + 1]) {
                Some(a) => agent_scan(args, i + 2, Some(a), rest),
                None => Err(agent_error(args[i + 1])),
            }
        }
    } else {
        agent_scan(args, i + 1, agent, rest.push(args[i]))
    }
}

fn read_agent(value: &str) -> (r: Result<AgentKind, String>)
    ensures
        match agent_named(value@) {
            Some(a) => r == Ok::<AgentKind, String>(a),
            None => r is Err && r->Err_0@ == agent_error(value@),
        },
{
    AgentKind::parse(value)
}

/// Takes the `--agent` flags out of the arguments from `start` on.
fn scan_agent(args: &Vec<String>, start: usize) -> (r: Result<(Option<AgentKind>, Vec<String>), String>)
    ensures
        match agent_scan(arg_texts(args@), start as int, None, Seq::empty()) {
            Ok((a, rest)) => r is Ok && r->Ok_0.0 == a && arg_texts(r->Ok_0.1@) == rest,
            Err(e) => r is Err && r->Err_0@ == e,
        },
{
    let ghost texts = arg_texts(args@);
    let ghost target = agent_scan(texts, start as int, None, Seq::empty());
    let mut agent: Option<AgentKind> = None;
    let mut rest: Vec<String> = Vec::new();
    let mut i = start;
    assert(arg_texts(rest@) =~= Seq::<Seq<char>>::empty());
    while i < args.len()
        invariant
            texts == arg_texts(args@),
            target == agent_scan(texts, start as int, None, Seq::empty()),
            target == agent_scan(texts, i as int, agent, arg_texts(rest@)),
        decreases args.len() - i,
    {
        let a = args[i].as_str();
        assert(texts[i as int] == a@);
        if str_eq(a, "--agent") {
            if i + 1 >= args.len() {
                return Err(message2("--agent", " requires a value"));
            }
            assert(texts[i + 1] == args@[i + 1]@);
            match read_agent(args[i + 1].as_str()) {
                Ok(k) => {
                    agent = Some(k);
                },
                Err(e) => {
                    return Err(e);
                },
            }
            i = i + 2;
        } else {
            let ghost before = rest@;
            rest.push(args[i].clone());
            assert(arg_texts(rest@) =~= arg_texts(before).push(texts[i as int]));
            i = i + 1;
        }
    }
    Ok((agent, rest))
}

/// The options `b3 install` reads from its arguments.
pub open spec fn install_result(args: Lines, cwd: Seq<char>) -> Result<InstallView, Seq<char>> {
    match agent_scan(args, 0, None, Seq::empty()) {
        Err(e) => Err(e),
        Ok((None, _)) => Err("install requires --agent <codex|cursor>"@),
        Ok((Some(a), rest)) => install_flags(rest, 0, install_defaults(a, cwd), cwd),
    }
}

/// Reads the options of `b3 install` from its arguments; `cwd` is the
/// working directory relative paths are taken from.
pub fn parse_install(args: &Vec<String>, cwd: &str) -> (r: Result<InstallOptions, String>)
    ensures
        match install_result(arg_texts(args@), cwd@) {
            Ok(o) => r is Ok && r->Ok_0@ == o,
            Err(e) => r is Err && r->Err_0@ == e,
        },
{
    let (agent, rest) = scan_agent(args, 0)?;
    let agent = match agent {
        Some(a) => a,
        None => {
            return Err("install requires --agent <codex|cursor>".to_owned());
        },
    };
    let mut options = InstallOptions::default_for(agent, cwd);
    parse_shared_install_options(&rest, 0, &mut options, cwd)?;
    Ok(options)
}

/// The options of an uninstall as plain values.
pub struct UninstallView {
    pub agent: AgentKind,
    pub server_name: Seq<char>,
    pub project_path: Seq<char>,
    pub config_path: Option<Seq<char>>,
    pub apply: bool,
    pub backup: bool,
}

impl View for UninstallOptions {
    type V = UninstallView;

    open spec fn view(&self) -> UninstallView {
        UninstallView {
            agent: self.agent,
            server_name: self.server_name@,
            project_path: self.project_path@,
            config_path: opt_view(self.config_path),
            apply: self.apply,
            backup: self.backup,
        }
    }
}

pub open spec fn uninstall_defaults(agent: AgentKind, cwd: Seq<char>) -> UninstallView {
    UninstallView {
        agent,
        server_name: "b3"@,
        project_path: default_project(cwd),
        config_path: None,
        apply: false,
        backup: true,
    }
}

impl UninstallOptions {
    /// The options of an uninstall for `agent` before any flag is read.
    pub fn default_for(agent: AgentKind, cwd: &str) -> (r: UninstallOptions)
        ensures
            r@ == uninstall_defaults(agent, cwd@),
    {
        UninstallOptions {
            agent,
            server_name: "b3".to_owned(),
            project_path: absolute_path(".", cwd),
            config_path: None,
            apply: false,
            backup: true,
        }
    }
}

/// The uninstall options after reading the arguments from `i` on.
pub open spec fn uninstall_flags(args: Lines, i: int, o: UninstallView, cwd: Seq<char>) -> Result<UninstallView, Seq<char>>
    decreases args.len() - i,
{
    if i < 0 || i >= args.len() {
        Ok(o)
    } else {
        let a = args[i];
        if a == "--server-name"@ || a == "--project"@ || a == "--config"@ {
            if i + 1 >= args.len() {
                Err(missing_value(a))
            } else {
                let v = args[i + 1];
                let o2 = if a == "--server-name"@ {
                    UninstallView { server_name: v, ..o }
                } else if a == "--project"@ {
                    UninstallView { project_path: absolute(v, cwd), ..o }
                } else {
                    UninstallView { config_path: Some(v), ..o }
                };
                uninstall_flags(args, i + 2, o2, cwd)
            }
        } else if a == "--dry-run"@ {
            uninstall_flags(args, i + 1, UninstallView { apply: false, ..o }, cwd)
        } else if a == "--apply"@ || a == "--write"@ {
            uninstall_flags(args, i + 1, UninstallView { apply: true, ..o }, cwd)
        } else if a == "--backup"@ {
            uninstall_flags(args, i + 1, UninstallView { backup: true, ..o }, cwd)
        } else if a == "--no-backup"@ {
            uninstall_flags(args, i + 1, UninstallView { backup: false, ..o }, cwd)
        } else if a == "--help"@ || a == "-h"@ {
            Err(usage_text())
        } else {
            Err("unknown uninstall argument: "@ + a)
        }
    }
}

/// The last backup flag decides: one more `--no-backup` after arguments
/// that read well gives the same options with the backup off, and one more
/// `--backup` gives them with the backup on.
pub proof fn lemma_uninstall_last_backup_flag_wins(args: Lines, i: int, o: UninstallView, cwd: Seq<char>)
    requires
        0 <= i <= args.len(),
        uninstall_flags(args, i, o, cwd) is Ok,
    ensures
        uninstall_flags(args.push("--no-backup"@), i, o, cwd) == Ok::<UninstallView, Seq<char>>(
            UninstallView { backup: false, ..uninstall_flags(args, i, o, cwd)->Ok_0 },
        ),
        uninstall_flags(args.push("--backup"@), i, o, cwd) == Ok::<UninstallView, Seq<char>>(
            UninstallView { backup: true, ..uninstall_flags(args, i, o, cwd)->Ok_0 },
        ),
    decreases args.len() - i,
{
    reveal_strlit("--server-name");
    reveal_strlit("--project");
    reveal_strlit("--config");
    reveal_strlit("--dry-run");
    reveal_strlit("--apply");
    reveal_strlit("--write");
    reveal_strlit("--backup");
    reveal_strlit("--no-backup");
    reveal_strlit("--help");
    reveal_strlit("-h");
    let no = args.push("--no-backup"@);
    let yes = args.push("--backup"@);
    if i == args.len() {
        assert(no[i] == "--no-backup"@ && yes[i] == "--backup"@);
        assert("--backup"@[2] != "--config"@[2]);
        assert("--backup"@ != "--config"@);
        assert(uninstall_flags(no, i + 1, UninstallView { backup: false, ..o }, cwd) == Ok::<
            UninstallView,
            Seq<char>,
        >(UninstallView { backup: false, ..o }));
        assert(uninstall_flags(yes, i + 1, UninstallView { backup: true, ..o }, cwd) == Ok::<
            UninstallView,
            Seq<char>,
        >(UninstallView { backup: true, ..o }));
    } else {
        let a = args[i];
        assert(no[i] == a && yes[i] == a);
        if a == "--server-name"@ || a == "--project"@ || a == "--config"@ {
            assert(i + 1 < args.len());
            let v = args[i + 1];
            assert(no[i + 1] == v && yes[i + 1] == v);
            let o2 = if a == "--server-name"@ {
                UninstallView { server_name: v, ..o }
            } else if a == "--project"@ {
                UninstallView { project_path: absolute(v, cwd), ..o }
            } else {
                UninstallView { config_path: Some(v), ..o }
            };
            lemma_uninstall_last_backup_flag_wins(args, i + 2, o2, cwd);
        } else if a == "--dry-run"@ {
            lemma_uninstall_last_backup_flag_wins(args, i + 1, UninstallView { apply: false, ..o }, cwd);
        } else if a == "--apply"@ || a == "--write"@ {
            lemma_uninstall_last_backup_flag_wins(args, i + 1, UninstallView { apply: true, ..o }, cwd);
        } else if a == "--backup"@ {
            lemma_uninstall_last_backup_flag_wins(args, i + 1, UninstallView { backup: true, ..o }, cwd);
        } else if a == "--no-backup"@ {
            lemma_uninstall_last_backup_flag_wins(args, i + 1, UninstallView { backup: false, ..o }, cwd);
        }
    }
}

/// The options `b3 uninstall` reads from its arguments.
pub open spec fn uninstall_result(args: Lines, cwd: Seq<char>) -> Result<UninstallView, Seq<char>> {
    match agent_scan(args, 0, None, Seq::empty()) {
        Err(e) => Err(e),
        Ok((None, _)) => Err("uninstall requires --agent <codex|cursor>"@),
        Ok((Some(a), rest)) => uninstall_flags(rest, 0, uninstall_defaults(a, cwd), cwd),
    }
}

fn read_uninstall_flags(args: &Vec<String>, options: &mut UninstallOptions, cwd: &str) -> (r: Result<(), String>)
    ensures
        match uninstall_flags(arg_texts(args@), 0, old(options)@, cwd@) {
            Ok(o) => r is Ok && final(options)@ == o,
            Err(e) => r is Err && r->Err_0@ == e,
        },
{
    let ghost texts = arg_texts(args@);
    let ghost target = uninstall_flags(texts, 0, options@, cwd@);
    let mut i: usize = 0;
    while i < args.len()
        invariant
            texts == arg_texts(args@),
            target == uninstall_flags(texts, 0, old(options)@, cwd@),
            target == uninstall_flags(texts, i as int, options@, cwd@),
        decreases args.len() - i,
    {
        let a = args[i].as_str();
        assert(texts[i as int] == a@);
        if str_eq(a, "--server-name") || str_eq(a, "--project") || str_eq(a, "--config") {
            if i + 1 >= args.len() {
                return Err(message2(a, " requires a value"));
            }
            let v = args[i + 1].as_str();
            assert(texts[i + 1] == v@);
            if str_eq(a, "--server-name") {
                options.server_name = v.to_owned();
            } else if str_eq(a, "--project") {
                options.project_path = absolute_path(v, cwd);
            } else {
                options.config_path = Some(v.to_owned());
            }
            i = i + 2;
        } else if str_eq(a, "--dry-run") {
            options.apply = false;
            i = i + 1;
        } else if str_eq(a, "--apply") || str_eq(a, "--write") {
            options.apply = true;
            i = i + 1;
        } else if str_eq(a, "--backup") {
            options.backup = true;
            i = i + 1;
        } else if str_eq(a, "--no-backup") {
            options.backup = false;
            i = i + 1;
        } else if str_eq(a, "--help") || str_eq(a, "-h") {
            return Err(usage());
        } else {
            return Err(message2("unknown uninstall argument: ", a));
        }
    }
    Ok(())
}

/// Reads the options of `b3 uninstall` from its arguments.
pub fn parse_uninstall(args: &Vec<String>, cwd: &str) -> (r: Result<UninstallOptions, String>)
    ensures
        match uninstall_result(arg_texts(args@), cwd@) {
            Ok(o) => r is Ok && r->Ok_0@ == o,
            Err(e) => r is Err && r->Err_0@ == e,
        },
{
    let (agent, rest) = scan_agent(args, 0)?;
    let agent = match agent {
        Some(a) => a,
        None => {
            return Err("uninstall requires --agent <codex|cursor>".to_owned());
        },
    };
    let mut options = UninstallOptions::default_for(agent, cwd);
    read_uninstall_flags(&rest, &mut options, cwd)?;
    Ok(options)
}

/// The options of the doctor as plain values.
pub struct DoctorView {
    pub project_path: Seq<char>,
    pub database_path: Seq<char>,
    pub profile: ToolProfileName,
    pub command_path: Seq<char>,
    pub codex_config_path: Seq<char>,
    pub cursor_config_path: Seq<char>,
}

impl View for DoctorOptions {
    type V = DoctorView;

    open spec fn view(&self) -> DoctorView {
        DoctorView {
            project_path: self.project_path@,
            database_path: self.database_path@,
            profile: self.profile,
            command_path: self.command_path@,
            codex_config_path: self.codex_config_path@,
            cursor_config_path: self.cursor_config_path@,
        }
    }
}

pub open spec fn doctor_defaults(cwd: Seq<char>, codex_config: Seq<char>) -> DoctorView {
    DoctorView {
        project_path: default_project(cwd),
        database_path: default_database(default_project(cwd)),
        profile: ToolProfileName::Optimized,
        command_path: "b3-mcp-runtime"@,
        codex_config_path: codex_config,
        cursor_config_path: default_cursor_config(default_project(cwd)),
    }
}

impl DoctorOptions {
    /// The doctor's options before any flag is read; `codex_config_path`
    /// is the user's Codex config.
    pub fn default_for(cwd: &str, codex_config_path: &str) -> (r: DoctorOptions)
        ensures
            r@ == doctor_defaults(cwd@, codex_config_path@),
    {
        let (project_path, database_path) = project_and_database(cwd);
        let cursor_dir = join_path(project_path.as_str(), ".cursor");
        let cursor_config_path = join_path(cursor_dir.as_str(), "mcp.json");
        DoctorOptions {
            project_path,
            database_path,
            profile: ToolProfileName::Optimized,
            command_path: "b3-mcp-runtime".to_owned(),
            codex_config_path: codex_config_path.to_owned(),
            cursor_config_path,
        }
    }
}

/// The doctor's options after reading the arguments from `i` on.
pub open spec fn doctor_flags(args: Lines, i: int, o: DoctorView, cwd: Seq<char>) -> Result<DoctorView, Seq<char>>
    decreases args.len() - i,
{
    if i < 0 || i >= args.len() {
        Ok(o)
    } else {
        let a = args[i];
        if a == "--project"@ || a == "--database"@ || a == "--profile"@ || a == "--tool-profile"@ || a == "--command"@
            || a == "--codex-config"@ || a == "--cursor-config"@ {
            if i + 1 >= args.len() {
                Err(missing_value(a))
            } else {
                let v = args[i + 1];
                if a == "--project"@ {
                    doctor_flags(
                        args,
                        i + 2,
                        DoctorView {
                            project_path: absolute(v, cwd),
                            cursor_config_path: default_cursor_config(absolute(v, cwd)),
                            ..o
                        },
                        cwd,
                    )
                } else if a == "--database"@ {
                    doctor_flags(args, i + 2, DoctorView { database_path: absolute(v, cwd), ..o }, cwd)
                } else if a == "--profile"@ || a == "--tool-profile"@ {
                    match profile_named(v) {
                        Some(p) => doctor_flags(args, i + 2, DoctorView { profile: p, ..o }, cwd),
                        None => Err(profile_error(v)),
                    }
                } else if a == "--command"@ {
                    doctor_flags(args, i + 2, DoctorView { command_path: v, ..o }, cwd)
                } else if a == "--codex-config"@ {
                    doctor_flags(args, i + 2, DoctorView { codex_config_path: v, ..o }, cwd)
                } else {
                    doctor_flags(args, i + 2, DoctorView { cursor_config_path: v, ..o }, cwd)
                }
            }
        } else if a == "--help"@ || a == "-h"@ {
            Err(usage_text())
        } else {
            Err("unknown doctor argument: "@ + a)
        }
    }
}

/// Reads the options of `b3 doctor` from its arguments; `codex_config_path`
/// is the user's Codex config.
pub fn parse_doctor(args: &Vec<String>, cwd: &str, codex_config_path: &str) -> (r: Result<DoctorOptions, String>)
    ensures
        match doctor_flags(arg_texts(args@), 0, doctor_defaults(cwd@, codex_config_path@), cwd@) {
            Ok(o) => r is Ok && r->Ok_0@ == o,
            Err(e) => r is Err && r->Err_0@ == e,
        },
{
    let ghost texts = arg_texts(args@);
    let mut options = DoctorOptions::default_for(cwd, codex_config_path);
    let ghost target = doctor_flags(texts, 0, options@, cwd@);
    let mut i: usize = 0;
    while i < args.len()
        invariant
            texts == arg_texts(args@),
            target == doctor_flags(texts, 0, doctor_defaults(cwd@, codex_config_path@), cwd@),
            target == doctor_flags(texts, i as int, options@, cwd@),
        decreases args.len() - i,
    {
        let a = args[i].as_str();
        assert(texts[i as int] == a@);
        if str_eq(a, "--project") || str_eq(a, "--database") || str_eq(a, "--profile") || str_eq(a, "--tool-profile")
            || str_eq(a, "--command") || str_eq(a, "--codex-config") || str_eq(a, "--cursor-config") {
            if i + 1 >= args.len() {
                return Err(message2(a, " requires a value"));
            }
            let v = args[i + 1].as_str();
            assert(texts[i + 1] == v@);
            if str_eq(a, "--project") {
                options.project_path = absolute_path(v, cwd);
                let cursor_dir = join_path(options.project_path.as_str(), ".cursor");
                options.cursor_config_path = join_path(cursor_dir.as_str(), "mcp.json");
            } else if str_eq(a, "--database") {
                options.database_path = absolute_path(v, cwd);
            } else if str_eq(a, "--profile") || str_eq(a, "--tool-profile") {
                match read_profile(v) {
                    Ok(p) => {
                        options.profile = p;
                    },
                    Err(e) => {
                        return Err(e);
                    },
                }
            } else if str_eq(a, "--command") {
                options.command_path = v.to_owned();
            } else if str_eq(a, "--codex-config") {
                options.codex_config_path = v.to_owned();
            } else {
                options.cursor_config_path = v.to_owned();
            }
            i = i + 2;
        } else if str_eq(a, "--help") || str_eq(a, "-h") {
            return Err(usage());
        } else {
            return Err(message2("unknown doctor argument: ", a));
        }
    }
    Ok(options)
}

/// The options of `b3 mcp config` as plain values.
pub struct McpConfigView {
    pub agent: AgentKind,
    pub server_name: Seq<char>,
    pub command_path: Seq<char>,
    pub project_path: Seq<char>,
    pub database_path: Seq<char>,
    pub profile: ToolProfileName,
    pub config_path: Option<Seq<char>>,
    pub cargo_run: bool,
    pub repo_path: Seq<char>,
}

impl View for McpConfigOptions {
    type V = McpConfigView;

    open spec fn view(&self) -> McpConfigView {
        McpConfigView {
            agent: self.agent,
            server_name: self.server_name@,
            command_path: self.command_path@,
            project_path: self.project_path@,
            database_path: self.database_path@,
            profile: self.profile,
            config_path: opt_view(self.config_path),
            cargo_run: self.cargo_run,
            repo_path: self.repo_path@,
        }
    }
}

pub open spec fn mcp_config_defaults(agent: AgentKind, cwd: Seq<char>) -> McpConfigView {
    McpConfigView {
        agent,
        server_name: "b3"@,
        command_path: "b3-mcp-runtime"@,
        project_path: default_project(cwd),
        database_path: default_database(default_project(cwd)),
        profile: ToolProfileName::Optimized,
        config_path: None,
        cargo_run: false,
        repo_path: default_project(cwd),
    }
}

impl McpConfigOptions {
    /// The options of a template for `agent` before any flag is read.
    pub fn default_for(agent: AgentKind, cwd: &str) -> (r: McpConfigOptions)
        ensures
            r@ == mcp_config_defaults(agent, cwd@),
    {
        let (project_path, database_path) = project_and_database(cwd);
        McpConfigOptions {
            agent,
            server_name: "b3".to_owned(),
            command_path: "b3-mcp-runtime".to_owned(),
            project_path,
            database_path,
            profile: ToolProfileName::Optimized,
            config_path: None,
            cargo_run: false,
            repo_path: absolute_path(".", cwd),
        }
    }
}

pub open spec fn print_only_error() -> Seq<char> {
    "b3 mcp config is print-only; use b3 install --agent <codex|cursor> --apply for safe writes with backups"@
}

pub open spec fn no_force_error() -> Seq<char> {
    "b3 mcp config does not force-overwrite files; use b3 install --apply --backup for safe writes"@
}

/// The flags of `b3 mcp config` that take a value.
pub open spec fn mcp_value_flag(a: Seq<char>) -> bool {
    a == "--server-name"@ || a == "--command"@ || a == "--project"@ || a == "--database"@ || a == "--profile"@
        || a == "--tool-profile"@ || a == "--config"@ || a == "--repo"@
}

/// The template options after reading the arguments from `i` on.
pub open spec fn mcp_config_flags(args: Lines, i: int, o: McpConfigView, cwd: Seq<char>) -> Result<McpConfigView, Seq<char>>
    decreases args.len() - i,
{
    if i < 0 || i >= args.len() {
        Ok(o)
    } else {
        let a = args[i];
        if mcp_value_flag(a) {
            if i + 1 >= args.len() {
                Err(missing_value(a))
            } else {
                let v = args[i + 1];
                if a == "--server-name"@ {
                    mcp_config_flags(args, i + 2, McpConfigView { server_name: v, ..o }, cwd)
                } else if a == "--command"@ {
                    mcp_config_flags(args, i + 2, McpConfigView { command_path: v, ..o }, cwd)
                } else if a == "--project"@ {
                    mcp_config_flags(args, i + 2, McpConfigView { project_path: absolute(v, cwd), ..o }, cwd)
                } else if a == "--database"@ {
                    mcp_config_flags(args, i + 2, McpConfigView { database_path: absolute(v, cwd), ..o }, cwd)
                } else if a == "--profile"@ || a == "--tool-profile"@ {
                    match profile_named(v) {
                        Some(p) => mcp_config_flags(args, i + 2, McpConfigView { profile: p, ..o }, cwd),
                        None => Err(profile_error(v)),
                    }
                } else if a == "--config"@ {
                    mcp_config_flags(args, i + 2, McpConfigView { config_path: Some(v), ..o }, cwd)
                } else {
                    mcp_config_flags(args, i + 2, McpConfigView { repo_path: absolute(v, cwd), ..o }, cwd)
                }
            }
        } else if a == "--cargo-run"@ {
            mcp_config_flags(args, i + 1, McpConfigView { cargo_run: true, ..o }, cwd)
        } else if a == "--dry-run"@ {
            mcp_config_flags(args, i + 1, o, cwd)
        } else if a == "--write"@ || a == "--apply"@ {
            Err(print_only_error())
        } else if a == "--force"@ {
            Err(no_force_error())
        } else if a == "--help"@ || a == "-h"@ {
            Err(usage_text())
        } else {
            Err("unknown mcp config argument: "@ + a)
        }
    }
}

/// Reads the options of `b3 mcp config <agent>` from the arguments after
/// the agent. The command only prints; flags that would write are refused.
pub fn parse_mcp_config(agent: AgentKind, args: &Vec<String>, cwd: &str) -> (r: Result<McpConfigOptions, String>)
    ensures
        match mcp_config_flags(arg_texts(args@), 0, mcp_config_defaults(agent, cwd@), cwd@) {
            Ok(o) => r is Ok && r->Ok_0@ == o,
            Err(e) => r is Err && r->Err_0@ == e,
        },
{
    let ghost texts = arg_texts(args@);
    let mut options = McpConfigOptions::default_for(agent, cwd);
    let ghost target = mcp_config_flags(texts, 0, options@, cwd@);
    let mut i: usize = 0;
    while i < args.len()
        invariant
            texts == arg_texts(args@),
            target == mcp_config_flags(texts, 0, mcp_config_defaults(agent, cwd@), cwd@),
            target == mcp_config_flags(texts, i as int, options@, cwd@),
        decreases args.len() - i,
    {
        let a = args[i].as_str();
        assert(texts[i as int] == a@);
        if str_eq(a, "--server-name") || str_eq(a, "--command") || str_eq(a, "--project") || str_eq(a, "--database")
            || str_eq(a, "--profile") || str_eq(a, "--tool-profile") || str_eq(a, "--config") || str_eq(a, "--repo") {
            if i + 1 >= args.len() {
                return Err(message2(a, " requires a value"));
            }
            let v = args[i + 1].as_str();
            assert(texts[i + 1] == v@);
            if str_eq(a, "--server-name") {
                options.server_name = v.to_owned();
            } else if str_eq(a, "--command") {
                options.command_path = v.to_owned();
            } else if str_eq(a, "--project") {
                options.project_path = absolute_path(v, cwd);
            } else if str_eq(a, "--database") {
                options.database_path = absolute_path(v, cwd);
            } else if str_eq(a, "--profile") || str_eq(a, "--tool-profile") {
                match read_profile(v) {
                    Ok(p) => {
                        options.profile = p;
                    },
                    Err(e) => {
                        return Err(e);
                    },
                }
            } else if str_eq(a, "--config") {
                options.config_path = Some(v.to_owned());
            } else {
                options.repo_path = absolute_path(v, cwd);
            }
            i = i + 2;
        } else if str_eq(a, "--cargo-run") {
            options.cargo_run = true;
            i = i + 1;
        } else if str_eq(a, "--dry-run") {
            i = i + 1;
        } else if str_eq(a, "--write") || str_eq(a, "--apply") {
            return Err(
                "b3 mcp config is print-only; use b3 install --agent <codex|cursor> --apply for safe writes with backups".to_owned(),
            );
        } else if str_eq(a, "--force") {
            return Err(
                "b3 mcp config does not force-overwrite files; use b3 install --apply --backup for safe writes".to_owned(),
            );
        } else if str_eq(a, "--help") || str_eq(a, "-h") {
            return Err(usage());
        } else {
            return Err(message2("unknown mcp config argument: ", a));
        }
    }
    Ok(options)
}

/// The options of `b3 register` as plain values.
pub struct RegisterView {
    pub project_path: Seq<char>,
    pub id: Option<Seq<char>>,
    pub name: Option<Seq<char>>,
    pub database_path: Option<Seq<char>>,
    pub tags: Lines,
    pub notes: Option<Seq<char>>,
    pub update: bool,
    pub registry_path: Seq<char>,
}

impl View for RegisterOptions {
    type V = RegisterView;

    open spec fn view(&self) -> RegisterView {
        RegisterView {
            project_path: self.project_path@,
            id: opt_view(self.id),
            name: opt_view(self.name),
            database_path: opt_view(self.database_path),
            tags: arg_texts(self.tags@),
            notes: opt_view(self.notes),
            update: self.update,
            registry_path: self.registry_path@,
        }
    }
}

/// The registration options after reading the arguments from `i` on.
pub open spec fn register_flags(args: Lines, i: int, o: RegisterView) -> Result<RegisterView, Seq<char>>
    decreases args.len() - i,
{
    if i < 0 || i >= args.len() {
        Ok(o)
    } else {
        let a = args[i];
        if a == "--id"@ || a == "--name"@ || a == "--database"@ || a == "--tag"@ || a == "--notes"@ || a == "--registry"@ {
            if i + 1 >= args.len() {
                Err(missing_value(a))
            } else {
                let v = args[i + 1];
                let o2 = if a == "--id"@ {
                    RegisterView { id: Some(v), ..o }
                } else if a == "--name"@ {
                    RegisterView { name: Some(v), ..o }
                } else if a == "--database"@ {
                    RegisterView { database_path: Some(v), ..o }
                } else if a == "--tag"@ {
                    RegisterView { tags: o.tags.push(v), ..o }
                } else if a == "--notes"@ {
                    RegisterView { notes: Some(v), ..o }
                } else {
                    RegisterView { registry_path: v, ..o }
                };
                register_flags(args, i + 2, o2)
            }
        } else if a == "--update"@ {
            register_flags(args, i + 1, RegisterView { update: true, ..o })
        } else if a == "--help"@ || a == "-h"@ {
            Err(usage_text())
        } else {
            Err("unknown register argument: "@ + a)
        }
    }
}

/// The options `b3 register` reads: the project path first, then flags.
pub open spec fn register_result(args: Lines, cwd: Seq<char>, registry: Seq<char>) -> Result<RegisterView, Seq<char>> {
    if args.len() == 0 {
        Err(missing_value("register <project-path>"@))
    } else {
        register_flags(
            args,
            1,
            RegisterView {
                project_path: absolute(args[0], cwd),
                id: None,
                name: None,
                database_path: None,
                tags: Seq::empty(),
                notes: None,
                update: false,
                registry_path: registry,
            },
        )
    }
}

/// Reads the options of `b3 register`; `registry_path` is the registry
/// used unless `--registry` names another.
pub fn parse_register(args: &Vec<String>, cwd: &str, registry_path: &str) -> (r: Result<RegisterOptions, String>)
    ensures
        match register_result(arg_texts(args@), cwd@, registry_path@) {
            Ok(o) => r is Ok && r->Ok_0@ == o,
            Err(e) => r is Err && r->Err_0@ == e,
        },
{
    let ghost texts = arg_texts(args@);
    if args.len() == 0 {
        return Err(message2("register <project-path>", " requires a value"));
    }
    assert(texts[0] == args@[0]@);
    let mut options = RegisterOptions {
        project_path: absolute_path(args[0].as_str(), cwd),
        id: None,
        name: None,
        database_path: None,
        tags: Vec::new(),
        notes: None,
        update: false,
        registry_path: registry_path.to_owned(),
    };
    assert(arg_texts(options.tags@) =~= Seq::<Seq<char>>::empty());
    let ghost target = register_flags(texts, 1, options@);
    let mut i: usize = 1;
    while i < args.len()
        invariant
            texts == arg_texts(args@),
            target == register_result(texts, cwd@, registry_path@),
            target == register_flags(texts, i as int, options@),
        decreases args.len() - i,
    {
        let a = args[i].as_str();
        assert(texts[i as int] == a@);
        if str_eq(a, "--id") || str_eq(a, "--name") || str_eq(a, "--database") || str_eq(a, "--tag") || str_eq(a, "--notes")
            || str_eq(a, "--registry") {
            if i + 1 >= args.len() {
                return Err(message2(a, " requires a value"));
            }
            let v = args[i + 1].as_str();
            assert(texts[i + 1] == v@);
            if str_eq(a, "--id") {
                options.id = Some(v.to_owned());
            } else if str_eq(a, "--name") {
                options.name = Some(v.to_owned());
            } else if str_eq(a, "--database") {
                options.database_path = Some(v.to_owned());
            } else if str_eq(a, "--tag") {
                let ghost before = options.tags@;
                options.tags.push(v.to_owned());
                assert(arg_texts(options.tags@) =~= arg_texts(before).push(v@));
            } else if str_eq(a, "--notes") {
                options.notes = Some(v.to_owned());
            } else {
                options.registry_path = v.to_owned();
            }
            i = i + 2;
        } else if str_eq(a, "--update") {
            options.update = true;
            i = i + 1;
        } else if str_eq(a, "--help") || str_eq(a, "-h") {
            return Err(usage());
        } else {
            return Err(message2("unknown register argument: ", a));
        }
    }
    Ok(options)
}

/// The options of a registry change as plain values.
pub struct MutationView {
    pub registry_path: Seq<char>,
    pub apply: bool,
    pub backup: bool,
}

impl View for RegistryMutationOptions {
    type V = MutationView;

    open spec fn view(&self) -> MutationView {
        MutationView { registry_path: self.registry_path@, apply: self.apply, backup: self.backup }
    }
}

/// The options of a registry change after reading the arguments from `i`
/// on.
pub open spec fn mutation_flags(args: Lines, i: int, o: MutationView) -> Result<MutationView, Seq<char>>
    decreases args.len() - i,
{
    if i < 0 || i >= args.len() {
        Ok(o)
    } else {
        let a = args[i];
        if a == "--registry"@ {
            if i + 1 >= args.len() {
                Err(missing_value(a))
            } else {
                mutation_flags(args, i + 2, MutationView { registry_path: args[i + 1], ..o })
            }
        } else if a == "--dry-run"@ {
            mutation_flags(args, i + 1, MutationView { apply: false, ..o })
        } else if a == "--apply"@ || a == "--write"@ {
            mutation_flags(args, i + 1, MutationView { apply: true, ..o })
        } else if a == "--backup"@ {
            mutation_flags(args, i + 1, MutationView { backup: true, ..o })
        } else if a == "--no-backup"@ {
            mutation_flags(args, i + 1, MutationView { backup: false, ..o })
        } else if a == "--help"@ || a == "-h"@ {
            Err(usage_text())
        } else {
            Err("unknown registry mutation argument: "@ + a)
        }
    }
}

/// The project and options `b3 unregister` reads: the project id first,
/// then flags.
pub open spec fn unregister_result(args: Lines, registry: Seq<char>) -> Result<(Seq<char>, MutationView), Seq<char>> {
    if args.len() == 0 {
        Err(missing_value("unregister <project-id>"@))
    } else {
        match mutation_flags(args, 1, MutationView { registry_path: registry, apply: false, backup: true }) {
            Ok(o) => Ok((args[0], o)),
            Err(e) => Err(e),
        }
    }
}

/// Reads the project id and options of `b3 unregister`.
pub fn parse_unregister(args: &Vec<String>, registry_path: &str) -> (r: Result<(String, RegistryMutationOptions), String>)
    ensures
        match unregister_result(arg_texts(args@), registry_path@) {
            Ok((id, o)) => r is Ok && r->Ok_0.0@ == id && r->Ok_0.1@ == o,
            Err(e) => r is Err && r->Err_0@ == e,
        },
{
    let ghost texts = arg_texts(args@);
    if args.len() == 0 {
        return Err(message2("unregister <project-id>", " requires a value"));
    }
    assert(texts[0] == args@[0]@);
    let mut options = RegistryMutationOptions { registry_path: registry_path.to_owned(), apply: false, backup: true };
    parse_registry_mutation_options(args, 1, &mut options)?;
    Ok((args[0].clone(), options))
}

/// Reads the flags of a registry change from `args[start..]` into
/// `options`.
fn parse_registry_mutation_options(args: &Vec<String>, start: usize, options: &mut RegistryMutationOptions) -> (r: Result<(), String>)
    ensures
        match mutation_flags(arg_texts(args@), start as int, old(options)@) {
            Ok(o) => r is Ok && final(options)@ == o,
            Err(e) => r is Err && r->Err_0@ == e,
        },
{
    let ghost texts = arg_texts(args@);
    let ghost target = mutation_flags(texts, start as int, options@);
    let mut i = start;
    while i < args.len()
        invariant
            texts == arg_texts(args@),
            target == mutation_flags(texts, start as int, old(options)@),
            target == mutation_flags(texts, i as int, options@),
        decreases args.len() - i,
    {
        let a = args[i].as_str();
        assert(texts[i as int] == a@);
        if str_eq(a, "--registry") {
            if i + 1 >= args.len() {
                return Err(message2(a, " requires a value"));
            }
            assert(texts[i + 1] == args@[i + 1]@);
            options.registry_path = args[i + 1].clone();
            i = i + 2;
        } else if str_eq(a, "--dry-run") {
            options.apply = false;
            i = i + 1;
        } else if str_eq(a, "--apply") || str_eq(a, "--write") {
            options.apply = true;
            i = i + 1;
        } else if str_eq(a, "--backup") {
            options.backup = true;
            i = i + 1;
        } else if str_eq(a, "--no-backup") {
            options.backup = false;
            i = i + 1;
        } else if str_eq(a, "--help") || str_eq(a, "-h") {
            return Err(usage());
        } else {
            return Err(message2("unknown registry mutation argument: ", a));
        }
    }
    Ok(())
}

/// The registry named by `--registry` among the arguments from `i` on
/// (the last one named), `registry` when none is.
pub open spec fn registry_flag(args: Lines, i: int, registry: Seq<char>, unknown: Seq<char>) -> Result<Seq<char>, Seq<char>>
    decreases args.len() - i,
{
    if i < 0 || i >= args.len() {
        Ok(registry)
    } else {
        let a = args[i];
        if a == "--registry"@ {
            if i + 1 >= args.len() {
                Err(missing_value(a))
            } else {
                registry_flag(args, i + 2, args[i + 1], unknown)
            }
        } else if a == "--help"@ || a == "-h"@ {
            Err(usage_text())
        } else {
            Err(unknown + a)
        }
    }
}

/// Reads the `--registry` flag from `args[start..]`; `unknown` begins the
/// refusal of any other argument.
fn parse_registry_flag(args: &Vec<String>, start: usize, registry_path: &str, unknown: &str) -> (r: Result<String, String>)
    ensures
        match registry_flag(arg_texts(args@), start as int, registry_path@, unknown@) {
            Ok(p) => r is Ok && r->Ok_0@ == p,
            Err(e) => r is Err && r->Err_0@ == e,
        },
{
    let ghost texts = arg_texts(args@);
    let mut registry = registry_path.to_owned();
    let ghost target = registry_flag(texts, start as int, registry@, unknown@);
    let mut i = start;
    while i < args.len()
        invariant
            texts == arg_texts(args@),
            target == registry_flag(texts, start as int, registry_path@, unknown@),
            target == registry_flag(texts, i as int, registry@, unknown@),
        decreases args.len() - i,
    {
        let a = args[i].as_str();
        assert(texts[i as int] == a@);
        if str_eq(a, "--registry") {
            if i + 1 >= args.len() {
                return Err(message2(a, " requires a value"));
            }
            assert(texts[i + 1] == args@[i + 1]@);
            registry = args[i + 1].clone();
            i = i + 2;
        } else if str_eq(a, "--help") || str_eq(a, "-h") {
            return Err(usage());
        } else {
            return Err(message2(unknown, a));
        }
    }
    Ok(registry)
}

/// Reads the registry of `b3 list` and `b3 group list`.
pub fn parse_registry_path_only(args: &Vec<String>, registry_path: &str) -> (r: Result<String, String>)
    ensures
        match registry_flag(arg_texts(args@), 0, registry_path@, "unknown argument: "@) {
            Ok(p) => r is Ok && r->Ok_0@ == p,
            Err(e) => r is Err && r->Err_0@ == e,
        },
{
    parse_registry_flag(args, 0, registry_path, "unknown argument: ")
}

/// The id and registry of `b3 status` (`name` heads the refusal of a
/// missing id).
pub open spec fn id_and_registry(args: Lines, name: Seq<char>, registry: Seq<char>) -> Result<(Seq<char>, Seq<char>), Seq<char>> {
    if args.len() == 0 {
        Err(missing_value(name))
    } else {
        match registry_flag(args, 1, registry, "unknown argument: "@) {
            Ok(p) => Ok((args[0], p)),
            Err(e) => Err(e),
        }
    }
}

/// Reads an id and then the registry flag: `b3 status <project-id>` and
/// `b3 group status <group-id>`.
pub fn parse_status(args: &Vec<String>, name: &str, registry_path: &str) -> (r: Result<(String, String), String>)
    ensures
        match id_and_registry(arg_texts(args@), name@, registry_path@) {
            Ok((id, p)) => r is Ok && r->Ok_0.0@ == id && r->Ok_0.1@ == p,
            Err(e) => r is Err && r->Err_0@ == e,
        },
{
    if args.len() == 0 {
        return Err(message2(name, " requires a value"));
    }
    assert(arg_texts(args@)[0] == args@[0]@);
    let registry = parse_registry_flag(args, 1, registry_path, "unknown argument: ")?;
    Ok((args[0].clone(), registry))
}

/// The options of `b3 group create` as plain values.
pub struct GroupCreateView {
    pub name: Seq<char>,
    pub id: Option<Seq<char>>,
    pub description: Seq<char>,
    pub tags: Lines,
    pub registry_path: Seq<char>,
}

impl View for GroupCreateOptions {
    type V = GroupCreateView;

    open spec fn view(&self) -> GroupCreateView {
        GroupCreateView {
            name: self.name@,
            id: opt_view(self.id),
            description: self.description@,
            tags: arg_texts(self.tags@),
            registry_path: self.registry_path@,
        }
    }
}

/// The group options after reading the arguments from `i` on.
pub open spec fn group_create_flags(args: Lines, i: int, o: GroupCreateView) -> Result<GroupCreateView, Seq<char>>
    decreases args.len() - i,
{
    if i < 0 || i >= args.len() {
        Ok(o)
    } else {
        let a = args[i];
        if a == "--id"@ || a == "--description"@ || a == "--tag"@ || a == "--registry"@ {
            if i + 1 >= args.len() {
                Err(missing_value(a))
            } else {
                let v = args[i + 1];
                let o2 = if a == "--id"@ {
                    GroupCreateView { id: Some(v), ..o }
                } else if a == "--description"@ {
                    GroupCreateView { description: v, ..o }
                } else if a == "--tag"@ {
                    GroupCreateView { tags: o.tags.push(v), ..o }
                } else {
                    GroupCreateView { registry_path: v, ..o }
                };
                group_create_flags(args, i + 2, o2)
            }
        } else if a == "--help"@ || a == "-h"@ {
            Err(usage_text())
        } else {
            Err("unknown group create argument: "@ + a)
        }
    }
}

/// The options `b3 group create` reads: the group name first, then flags.
pub open spec fn group_create_result(args: Lines, registry: Seq<char>) -> Result<GroupCreateView, Seq<char>> {
    if args.len() == 0 {
        Err(missing_value("group create <group-name>"@))
    } else {
        group_create_flags(
            args,
            1,
            GroupCreateView { name: args[0], id: None, description: Seq::empty(), tags: Seq::empty(), registry_path: registry },
        )
    }
}

/// Reads the options of `b3 group create`.
pub fn parse_group_create(args: &Vec<String>, registry_path: &str) -> (r: Result<GroupCreateOptions, String>)
    ensures
        match group_create_result(arg_texts(args@), registry_path@) {
            Ok(o) => r is Ok && r->Ok_0@ == o,
            Err(e) => r is Err && r->Err_0@ == e,
        },
{
    let ghost texts = arg_texts(args@);
    if args.len() == 0 {
        return Err(message2("group create <group-name>", " requires a value"));
    }
    assert(texts[0] == args@[0]@);
    let mut options = GroupCreateOptions {
        name: args[0].clone(),
        id: None,
        description: String::new(),
        tags: Vec::new(),
        registry_path: registry_path.to_owned(),
    };
    assert(arg_texts(options.tags@) =~= Seq::<Seq<char>>::empty());
    assert(options.description@ =~= Seq::<char>::empty());
    let ghost target = group_create_flags(texts, 1, options@);
    let mut i: usize = 1;
    while i < args.len()
        invariant
            texts == arg_texts(args@),
            target == group_create_result(texts, registry_path@),
            target == group_create_flags(texts, i as int, options@),
        decreases args.len() - i,
    {
        let a = args[i].as_str();
        assert(texts[i as int] == a@);
        if str_eq(a, "--id") || str_eq(a, "--description") || str_eq(a, "--tag") || str_eq(a, "--registry") {
            if i + 1 >= args.len() {
                return Err(message2(a, " requires a value"));
            }
            let v = args[i + 1].as_str();
            assert(texts[i + 1] == v@);
            if str_eq(a, "--id") {
                options.id = Some(v.to_owned());
            } else if str_eq(a, "--description") {
                options.description = v.to_owned();
            } else if str_eq(a, "--tag") {
                let ghost before = options.tags@;
                options.tags.push(v.to_owned());
                assert(arg_texts(options.tags@) =~= arg_texts(before).push(v@));
            } else {
                options.registry_path = v.to_owned();
            }
            i = i + 2;
        } else if str_eq(a, "--help") || str_eq(a, "-h") {
            return Err(usage());
        } else {
            return Err(message2("unknown group create argument: ", a));
        }
    }
    Ok(options)
}

/// The group and project `b3 group add` and `b3 group remove` read, then
/// the registry flag.
pub open spec fn membership_result(args: Lines, registry: Seq<char>) -> Result<(Seq<char>, Seq<char>, Seq<char>), Seq<char>> {
    if args.len() < 2 {
        Err(missing_value("group <add|remove> <group-id> <project-id>"@))
    } else {
        match registry_flag(args, 2, registry, "unknown group membership argument: "@) {
            Ok(p) => Ok((args[0], args[1], p)),
            Err(e) => Err(e),
        }
    }
}

/// Reads the options of `b3 group add` and `b3 group remove`.
pub fn parse_group_membership(args: &Vec<String>, registry_path: &str) -> (r: Result<GroupMembershipOptions, String>)
    ensures
        match membership_result(arg_texts(args@), registry_path@) {
            Ok((g, p, reg)) => r is Ok && r->Ok_0.group_id@ == g && r->Ok_0.project_id@ == p
                && r->Ok_0.registry_path@ == reg,
            Err(e) => r is Err && r->Err_0@ == e,
        },
{
    if args.len() < 2 {
        return Err(message2("group <add|remove> <group-id> <project-id>", " requires a value"));
    }
    assert(arg_texts(args@)[0] == args@[0]@);
    assert(arg_texts(args@)[1] == args@[1]@);
    let registry = parse_registry_flag(args, 2, registry_path, "unknown group membership argument: ")?;
    Ok(GroupMembershipOptions { group_id: args[0].clone(), project_id: args[1].clone(), registry_path: registry })
}

/// What a `b3` command line asks for.
#[derive(Debug, Clone, PartialEq, Eq)]
pub enum Command {
    Help,
    Install(InstallOptions),
    Uninstall(UninstallOptions),
    Doctor(DoctorOptions),
    McpConfig(McpConfigOptions),
    McpProfiles,
    Register(RegisterOptions),
    Unregister(String, RegistryMutationOptions),
    List(String),
    Status(String, String),
    GroupCreate(GroupCreateOptions),
    GroupAdd(GroupMembershipOptions),
    GroupRemove(GroupMembershipOptions),
    GroupList(String),
    GroupStatus(String, String),
}

/// A command as plain values.
pub enum CommandView {
    Help,
    Install(InstallView),
    Uninstall(UninstallView),
    Doctor(DoctorView),
    McpConfig(McpConfigView),
    McpProfiles,
    Register(RegisterView),
    Unregister(Seq<char>, MutationView),
    List(Seq<char>),
    Status(Seq<char>, Seq<char>),
    GroupCreate(GroupCreateView),
    GroupAdd(Seq<char>, Seq<char>, Seq<char>),
    GroupRemove(Seq<char>, Seq<char>, Seq<char>),
    GroupList(Seq<char>),
    GroupStatus(Seq<char>, Seq<char>),
}

impl View for Command {
    type V = CommandView;

    open spec fn view(&self) -> CommandView {
        match self {
            Command::Help => CommandView::Help,
            Command::Install(o) => CommandView::Install(o@),
            Command::Uninstall(o) => CommandView::Uninstall(o@),
            Command::Doctor(o) => CommandView::Doctor(o@),
            Command::McpConfig(o) => CommandView::McpConfig(o@),
            Command::McpProfiles => CommandView::McpProfiles,
            Command::Register(o) => CommandView::Register(o@),
            Command::Unregister(id, o) => CommandView::Unregister(id@, o@),
            Command::List(p) => CommandView::List(p@),
            Command::Status(id, p) => CommandView::Status(id@, p@),
            Command::GroupCreate(o) => CommandView::GroupCreate(o@),
            Command::GroupAdd(o) => CommandView::GroupAdd(o.group_id@, o.project_id@, o.registry_path@),
            Command::GroupRemove(o) => CommandView::GroupRemove(o.group_id@, o.project_id@, o.registry_path@),
            Command::GroupList(p) => CommandView::GroupList(p@),
            Command::GroupStatus(id, p) => CommandView::GroupStatus(id@, p@),
        }
    }
}

/// What `b3 mcp ...` asks for.
pub open spec fn mcp_result(args: Lines, cwd: Seq<char>, codex_config: Seq<char>) -> Result<CommandView, Seq<char>> {
    if args.len() == 0 {
        Err(missing_value("mcp <config|doctor|profiles>"@))
    } else {
        let sub = args[0];
        let rest = args.skip(1);
        if sub == "config"@ {
            if rest.len() == 0 {
                Err(missing_value("mcp config <codex|cursor>"@))
            } else {
                match agent_named(rest[0]) {
                    None => Err(agent_error(rest[0])),
                    Some(a) => match mcp_config_flags(rest.skip(1), 0, mcp_config_defaults(a, cwd), cwd) {
                        Ok(o) => Ok(CommandView::McpConfig(o)),
                        Err(e) => Err(e),
                    },
                }
            }
        } else if sub == "doctor"@ {
            match doctor_flags(rest, 0, doctor_defaults(cwd, codex_config), cwd) {
                Ok(o) => Ok(CommandView::Doctor(o)),
                Err(e) => Err(e),
            }
        } else if sub == "profiles"@ {
            Ok(CommandView::McpProfiles)
        } else if sub == "--help"@ || sub == "-h"@ {
            Err(usage_text())
        } else {
            Err("unknown mcp subcommand: "@ + sub + "\n"@ + usage_text())
        }
    }
}

/// What `b3 group ...` asks for.
pub open spec fn group_result(args: Lines, registry: Seq<char>) -> Result<CommandView, Seq<char>> {
    if args.len() == 0 {
        Err("group requires a subcommand: create, add, remove, list, status"@)
    } else {
        let sub = args[0];
        let rest = args.skip(1);
        if sub == "create"@ {
            match group_create_result(rest, registry) {
                Ok(o) => Ok(CommandView::GroupCreate(o)),
                Err(e) => Err(e),
            }
        } else if sub == "add"@ {
            match membership_result(rest, registry) {
                Ok((g, p, reg)) => Ok(CommandView::GroupAdd(g, p, reg)),
                Err(e) => Err(e),
            }
        } else if sub == "remove"@ {
            match membership_result(rest, registry) {
                Ok((g, p, reg)) => Ok(CommandView::GroupRemove(g, p, reg)),
                Err(e) => Err(e),
            }
        } else if sub == "list"@ {
            match registry_flag(rest, 0, registry, "unknown argument: "@) {
                Ok(p) => Ok(CommandView::GroupList(p)),
                Err(e) => Err(e),
            }
        } else if sub == "status"@ {
            match id_and_registry(rest, "group status <group-id>"@, registry) {
                Ok((id, p)) => Ok(CommandView::GroupStatus(id, p)),
                Err(e) => Err(e),
            }
        } else if sub == "delete"@ {
            Err("group delete is deferred; edit registry with explicit backup if needed"@)
        } else {
            Err("unknown group command: "@ + sub)
        }
    }
}

/// What a `b3` command line asks for, or why it is refused. `cwd` is the
/// working directory, `registry` the default registry and `codex_config`
/// the user's Codex config.
pub open spec fn command_result(args: Lines, cwd: Seq<char>, registry: Seq<char>, codex_config: Seq<char>) -> Result<CommandView, Seq<char>> {
    if args.len() == 0 {
        Ok(CommandView::Help)
    } else {
        let c = args[0];
        let rest = args.skip(1);
        if c == "install"@ {
            match install_result(rest, cwd) {
                Ok(o) => Ok(CommandView::Install(o)),
                Err(e) => Err(e),
            }
        } else if c == "uninstall"@ {
            match uninstall_result(rest, cwd) {
                Ok(o) => Ok(CommandView::Uninstall(o)),
                Err(e) => Err(e),
            }
        } else if c == "doctor"@ {
            match doctor_flags(rest, 0, doctor_defaults(cwd, codex_config), cwd) {
                Ok(o) => Ok(CommandView::Doctor(o)),
                Err(e) => Err(e),
            }
        } else if c == "mcp"@ {
            mcp_result(rest, cwd, codex_config)
        } else if c == "register"@ {
            match register_result(rest, cwd, registry) {
                Ok(o) => Ok(CommandView::Register(o)),
                Err(e) => Err(e),
            }
        } else if c == "unregister"@ {
            match unregister_result(rest, registry) {
                Ok((id, o)) => Ok(CommandView::Unregister(id, o)),
                Err(e) => Err(e),
            }
        } else if c == "list"@ {
            match registry_flag(rest, 0, registry, "unknown argument: "@) {
                Ok(p) => Ok(CommandView::List(p)),
                Err(e) => Err(e),
            }
        } else if c == "status"@ {
            match id_and_registry(rest, "status <project-id>"@, registry) {
                Ok((id, p)) => Ok(CommandView::Status(id, p)),
                Err(e) => Err(e),
            }
        } else if c == "group"@ {
            group_result(rest, registry)
        } else if c == "help"@ || c == "--help"@ || c == "-h"@ {
            Ok(CommandView::Help)
        } else {
            Err("unknown b3 command: "@ + c + "\n"@ + usage_text())
        }
    }
}

/// The arguments from `k` on.
fn tail(args: &Vec<String>, k: usize) -> (r: Vec<String>)
    requires
        k <= args.len(),
    ensures
        arg_texts(r@) == arg_texts(args@).skip(k as int),
{
    let mut out: Vec<String> = Vec::new();
    let mut i = k;
    assert(arg_texts(out@) =~= arg_texts(args@).skip(k as int).take(0));
    while i < args.len()
        invariant
            k <= i <= args.len(),
            arg_texts(out@) == arg_texts(args@).skip(k as int).take(i - k),
        decreases args.len() - i,
    {
        let ghost before = arg_texts(out@);
        out.push(args[i].clone());
        assert(arg_texts(out@) =~= before.push(args@[i as int]@));
        assert(arg_texts(args@).skip(k as int).take(i - k + 1) =~= arg_texts(args@).skip(k as int).take(i - k).push(args@[i as int]@));
        i += 1;
    }
    assert(arg_texts(args@).skip(k as int).take(i - k) =~= arg_texts(args@).skip(k as int));
    out
}

fn message4(a: &str, b: &str, c: &str, d: &str) -> (r: String)
    ensures
        r@ == a@ + b@ + c@ + d@,
{
    let mut out: Vec<char> = Vec::new();
    push_str(&mut out, a);
    push_str(&mut out, b);
    push_str(&mut out, c);
    push_str(&mut out, d);
    string_from_chars(&out)
}

fn parse_mcp(args: &Vec<String>, cwd: &str, codex_config_path: &str) -> (r: Result<Command, String>)
    ensures
        match mcp_result(arg_texts(args@), cwd@, codex_config_path@) {
            Ok(v) => r is Ok && r->Ok_0@ == v,
            Err(e) => r is Err && r->Err_0@ == e,
        },
{
    let ghost texts = arg_texts(args@);
    if args.len() == 0 {
        return Err(message2("mcp <config|doctor|profiles>", " requires a value"));
    }
    let sub = args[0].as_str();
    assert(texts[0] == sub@);
    let rest = tail(args, 1);
    if str_eq(sub, "config") {
        if rest.len() == 0 {
            return Err(message2("mcp config <codex|cursor>", " requires a value"));
        }
        assert(arg_texts(rest@)[0] == rest@[0]@);
        let agent = read_agent(rest[0].as_str())?;
        let flags = tail(&rest, 1);
        let options = parse_mcp_config(agent, &flags, cwd)?;
        Ok(Command::McpConfig(options))
    } else if str_eq(sub, "doctor") {
        let options = parse_doctor(&rest, cwd, codex_config_path)?;
        Ok(Command::Doctor(options))
    } else if str_eq(sub, "profiles") {
        Ok(Command::McpProfiles)
    } else if str_eq(sub, "--help") || str_eq(sub, "-h") {
        Err(usage())
    } else {
        let u = usage();
        Err(message4("unknown mcp subcommand: ", sub, "\n", u.as_str()))
    }
}

fn parse_group(args: &Vec<String>, registry_path: &str) -> (r: Result<Command, String>)
    ensures
        match group_result(arg_texts(args@), registry_path@) {
            Ok(v) => r is Ok && r->Ok_0@ == v,
            Err(e) => r is Err && r->Err_0@ == e,
        },
{
    let ghost texts = arg_texts(args@);
    if args.len() == 0 {
        return Err("group requires a subcommand: create, add, remove, list, status".to_owned());
    }
    let sub = args[0].as_str();
    assert(texts[0] == sub@);
    let rest = tail(args, 1);
    if str_eq(sub, "create") {
        Ok(Command::GroupCreate(parse_group_create(&rest, registry_path)?))
    } else if str_eq(sub, "add") {
        Ok(Command::GroupAdd(parse_group_membership(&rest, registry_path)?))
    } else if str_eq(sub, "remove") {
        Ok(Command::GroupRemove(parse_group_membership(&rest, registry_path)?))
    } else if str_eq(sub, "list") {
        Ok(Command::GroupList(parse_registry_path_only(&rest, registry_path)?))
    } else if str_eq(sub, "status") {
        let (id, registry) = parse_status(&rest, "group status <group-id>", registry_path)?;
        Ok(Command::GroupStatus(id, registry))
    } else if str_eq(sub, "delete") {
        Err("group delete is deferred; edit registry with explicit backup if needed".to_owned())
    } else {
        Err(message2("unknown group command: ", sub))
    }
}

/// Reads a `b3` command line (the arguments after the program name).
/// `cwd` is the working directory, `registry_path` the registry used
/// unless `--registry` names another, and `codex_config_path` the user's
/// Codex config.
pub fn parse_command(args: &Vec<String>, cwd: &str, registry_path: &str, codex_config_path: &str) -> (r: Result<Command, String>)
    ensures
        match command_result(arg_texts(args@), cwd@, registry_path@, codex_config_path@) {
            Ok(v) => r is Ok && r->Ok_0@ == v,
            Err(e) => r is Err && r->Err_0@ == e,
        },
{
    let ghost texts = arg_texts(args@);
    if args.len() == 0 {
        return Ok(Command::Help);
    }
    let c = args[0].as_str();
    assert(texts[0] == c@);
    let rest = tail(args, 1);
    if str_eq(c, "install") {
        Ok(Command::Install(parse_install(&rest, cwd)?))
    } else if str_eq(c, "uninstall") {
        Ok(Command::Uninstall(parse_uninstall(&rest, cwd)?))
    } else if str_eq(c, "doctor") {
        Ok(Command::Doctor(parse_doctor(&rest, cwd, codex_config_path)?))
    } else if str_eq(c, "mcp") {
        parse_mcp(&rest, cwd, codex_config_path)
    } else if str_eq(c, "register") {
        Ok(Command::Register(parse_register(&rest, cwd, registry_path)?))
    } else if str_eq(c, "unregister") {
        let (id, options) = parse_unregister(&rest, registry_path)?;
        Ok(Command::Unregister(id, options))
    } else if str_eq(c, "list") {
        Ok(Command::List(parse_registry_path_only(&rest, registry_path)?))
    } else if str_eq(c, "status") {
        let (id, registry) = parse_status(&rest, "status <project-id>", registry_path)?;
        Ok(Command::Status(id, registry))
    } else if str_eq(c, "group") {
        parse_group(&rest, registry_path)
    } else if str_eq(c, "help") || str_eq(c, "--help") || str_eq(c, "-h") {
        Ok(Command::Help)
    } else {
        let u = usage();
        Err(message4("unknown b3 command: ", c, "\n", u.as_str()))
    }
}

} // verus!
