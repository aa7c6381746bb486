use b3_local::control::server_args::{
    parse_project_options, parse_server_command, parse_unsigned, HostFact, ProjectArgs, ServerCommand,
};
use b3_local::setup::cli::{
    parse_command, parse_doctor, parse_group_membership, parse_install, parse_mcp_config,
    parse_register, parse_uninstall, Command,
};
use b3_local::setup::{AgentKind, ToolProfileName};

fn args(items: &[&str]) -> Vec<String> {
    items.iter().map(|item| item.to_string()).collect()
}

/// How each argument reads as a host, for the addresses these tests use.
fn host_facts(items: &[&str]) -> Vec<HostFact> {
    items
        .iter()
        .map(|item| match *item {
            "::1" | "127.0.0.1" => HostFact { is_ip: true, is_loopback: true },
            "0.0.0.0" => HostFact { is_ip: true, is_loopback: false },
            _ => HostFact { is_ip: false, is_loopback: false },
        })
        .collect()
}

fn server(items: &[&str]) -> Result<ServerCommand, b3_local::control::ControlError> {
    parse_server_command(&args(items), &host_facts(items))
}

const CWD: &str = "/work/app";
const REGISTRY: &str = "/home/me/.b3/registry.json";
const CODEX: &str = "/home/me/.codex/config.toml";

fn run(items: &[&str]) -> Result<Command, String> {
    parse_command(&args(items), CWD, REGISTRY, CODEX)
}

#[test]
fn invalid_profile_is_rejected() {
    let result = run(&["doctor", "--profile", "invalid"]);

    assert!(result.expect_err("error").contains("invalid tool profile"));
}

#[test]
fn mcp_config_rejects_write_to_preserve_explicit_install_safety() {
    let result = run(&["mcp", "config", "cursor", "--write"]);

    assert!(result.expect_err("write error").contains("print-only"));
}

#[test]
fn install_reads_agent_and_flags() {
    let options = parse_install(
        &args(&["--profile", "full", "--agent", "cursor", "--project", "p", "--apply", "--no-backup"]),
        CWD,
    )
    .expect("install");

    assert_eq!(options.agent, AgentKind::Cursor);
    assert_eq!(options.profile, ToolProfileName::Full);
    assert_eq!(options.project_path, "/work/app/p");
    assert_eq!(options.database_path, "/work/app/./.b3/b3.db");
    assert!(options.apply);
    assert!(!options.backup);
    assert_eq!(options.server_name, "b3");
    assert_eq!(options.command_path, "b3-mcp-runtime");
}

#[test]
fn install_requires_an_agent() {
    assert_eq!(
        parse_install(&args(&["--apply"]), CWD).expect_err("agent"),
        "install requires --agent <codex|cursor>"
    );
    assert_eq!(
        parse_install(&args(&["--agent"]), CWD).expect_err("value"),
        "--agent requires a value"
    );
    assert_eq!(
        parse_install(&args(&["--agent", "vim"]), CWD).expect_err("agent"),
        "unsupported agent: vim; supported agents: codex, cursor"
    );
    assert_eq!(
        parse_install(&args(&["--agent", "codex", "--bogus"]), CWD).expect_err("unknown"),
        "unknown install argument: --bogus"
    );
}

#[test]
fn uninstall_reads_its_flags() {
    let options = parse_uninstall(
        &args(&["--agent", "codex", "--server-name", "work", "--config", "c.toml", "--write"]),
        CWD,
    )
    .expect("uninstall");

    assert_eq!(options.agent, AgentKind::Codex);
    assert_eq!(options.server_name, "work");
    assert_eq!(options.config_path.as_deref(), Some("c.toml"));
    assert!(options.apply);
    assert_eq!(options.project_path, "/work/app/.");
}

#[test]
fn doctor_project_moves_the_cursor_config() {
    let options = parse_doctor(&args(&["--project", "/repo", "--command", "rt"]), CWD, CODEX)
        .expect("doctor");

    assert_eq!(options.project_path, "/repo");
    assert_eq!(options.cursor_config_path, "/repo/.cursor/mcp.json");
    assert_eq!(options.codex_config_path, CODEX);
    assert_eq!(options.command_path, "rt");
    assert_eq!(
        parse_doctor(&args(&["--database"]), CWD, CODEX).expect_err("value"),
        "--database requires a value"
    );
}

#[test]
fn mcp_config_flags_and_refusals() {
    let options = parse_mcp_config(
        AgentKind::Codex,
        &args(&["--cargo-run", "--repo", "/src/b3", "--dry-run", "--tool-profile", "tiny"]),
        CWD,
    )
    .expect("config");

    assert!(options.cargo_run);
    assert_eq!(options.repo_path, "/src/b3");
    assert_eq!(options.profile, ToolProfileName::Tiny);
    assert!(parse_mcp_config(AgentKind::Codex, &args(&["--force"]), CWD)
        .expect_err("force")
        .contains("does not force-overwrite"));
}

#[test]
fn register_reads_path_and_tags() {
    let options = parse_register(
        &args(&["api", "--tag", "rust", "--tag", "backend", "--name", "API", "--update"]),
        CWD,
        REGISTRY,
    )
    .expect("register");

    assert_eq!(options.project_path, "/work/app/api");
    assert_eq!(options.tags, vec!["rust", "backend"]);
    assert_eq!(options.name.as_deref(), Some("API"));
    assert!(options.update);
    assert_eq!(options.registry_path, REGISTRY);
    assert_eq!(
        parse_register(&Vec::new(), CWD, REGISTRY).expect_err("path"),
        "register <project-path> requires a value"
    );
}

#[test]
fn group_membership_needs_two_ids() {
    let options = parse_group_membership(&args(&["g", "p", "--registry", "r.json"]), REGISTRY)
        .expect("membership");

    assert_eq!(options.group_id, "g");
    assert_eq!(options.project_id, "p");
    assert_eq!(options.registry_path, "r.json");
    assert_eq!(
        parse_group_membership(&args(&["g"]), REGISTRY).expect_err("ids"),
        "group <add|remove> <group-id> <project-id> requires a value"
    );
}

#[test]
fn commands_are_dispatched() {
    assert_eq!(run(&[]), Ok(Command::Help));
    assert_eq!(run(&["--help"]), Ok(Command::Help));
    assert_eq!(run(&["mcp", "profiles"]), Ok(Command::McpProfiles));
    assert_eq!(run(&["list"]), Ok(Command::List(REGISTRY.to_string())));
    assert_eq!(
        run(&["status", "api", "--registry", "x.json"]),
        Ok(Command::Status("api".to_string(), "x.json".to_string()))
    );
    assert_eq!(
        run(&["group", "status", "g"]),
        Ok(Command::GroupStatus("g".to_string(), REGISTRY.to_string()))
    );
    assert!(matches!(run(&["unregister", "api", "--apply"]), Ok(Command::Unregister(id, o)) if id == "api" && o.apply && o.backup));
    assert!(run(&["frobnicate"]).expect_err("unknown").starts_with("unknown b3 command: frobnicate\nusage:"));
    assert_eq!(
        run(&["group", "delete"]).expect_err("delete"),
        "group delete is deferred; edit registry with explicit backup if needed"
    );
    assert_eq!(
        run(&["group"]).expect_err("group"),
        "group requires a subcommand: create, add, remove, list, status"
    );
    assert_eq!(run(&["mcp"]).expect_err("mcp"), "mcp <config|doctor|profiles> requires a value");
    assert!(run(&["list", "--verbose"]).expect_err("flag").contains("unknown argument: --verbose"));
}

#[test]
fn server_commands_and_project_options() {
    assert!(matches!(server(&[]), Ok(ServerCommand::Serve(_))));
    match server(&["serve", "--port", "1"]) {
        Ok(ServerCommand::Serve(options)) => assert_eq!(options.bind_port, 1),
        _ => panic!("expected serve"),
    }
    let index = server(&["reindex", "--scope", "language:go", "--dry-run"]);
    match index {
        Ok(ServerCommand::Index(options, reindex)) => {
            assert!(reindex);
            assert_eq!(options.scope.as_deref(), Some("language:go"));
            assert!(options.dry_run);
            assert_eq!(options.project_path, ".");
            assert_eq!(options.database_path, ".b3/b3.db");
        }
        _ => panic!("expected reindex"),
    }
    let refused = server(&["watch"]).err().expect("refused");
    assert_eq!(refused.status, 400);
    assert_eq!(refused.message, "expected command: init, index, reindex, or serve");
    assert!(matches!(parse_project_options(&args(&["--help"]), 0), Ok(ProjectArgs::Help)));
    let missing = parse_project_options(&args(&["--project"]), 0).err().expect("missing");
    assert_eq!(missing.message, "--project requires a value");
}

#[test]
fn serve_reads_its_options_and_refuses_unknown_ones() {
    let bogus = server(&["serve", "--bogus"]).err().expect("bogus");
    assert_eq!(bogus.status, 400);
    assert_eq!(bogus.message, "unknown argument: --bogus");
    match server(&[
        "serve", "--project", "/p", "--database", "/p/db", "--port", "+8080", "--watch",
        "--debounce-ms", "250", "--host", "::1",
    ]) {
        Ok(ServerCommand::Serve(o)) => {
            assert_eq!(o.project_path, "/p");
            assert_eq!(o.database_path, "/p/db");
            assert_eq!(o.bind_port, 8080);
            assert!(o.watch);
            assert_eq!(o.debounce_ms, 250);
            assert_eq!(o.bind_host, "::1");
            assert!(o.bind_is_loopback);
        }
        _ => panic!("expected serve"),
    }
    assert_eq!(server(&["serve", "--port", "70000"]).err().unwrap().message, "--port must be a valid u16");
    assert_eq!(server(&["serve", "--port", "-1"]).err().unwrap().message, "--port must be a valid u16");
    assert_eq!(server(&["serve", "--host", "localhost"]).err().unwrap().message, "--host must be an IP address");
    assert_eq!(server(&["serve", "--debounce-ms"]).err().unwrap().message, "--debounce-ms requires a value");
    assert_eq!(
        server(&["serve", "--host", "0.0.0.0"]).err().unwrap().message,
        "non-local bind addresses require --allow-non-local-bind"
    );
    assert!(matches!(
        server(&["serve", "--host", "0.0.0.0", "--allow-non-local-bind"]),
        Ok(ServerCommand::Serve(_))
    ));
    assert!(matches!(server(&["serve", "--help"]), Ok(ServerCommand::Help)));
}

#[test]
fn unsigned_numbers_read_as_std_reads_them() {
    assert_eq!(parse_unsigned("65535", 0xffff), Some(65535));
    assert_eq!(parse_unsigned("65536", 0xffff), None);
    assert_eq!(parse_unsigned("+7", 0xffff), Some(7));
    assert_eq!(parse_unsigned("+", 0xffff), None);
    assert_eq!(parse_unsigned("", 0xffff), None);
    assert_eq!(parse_unsigned(" 7", 0xffff), None);
    assert_eq!(parse_unsigned("007", 0xffff), Some(7));
    assert_eq!(parse_unsigned("18446744073709551615", u64::MAX), Some(u64::MAX));
    assert_eq!(parse_unsigned("18446744073709551616", u64::MAX), None);
}
