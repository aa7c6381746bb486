use b3_local::setup::codex::{
    codex_mcp_template, codex_snippet, escape_toml, mcp_args, mcp_command, remove_codex_server,
    update_codex_config, validate_server_name, validate_toml_like,
};
use b3_local::setup::{
    b3_home, backup_path_at, backup_path_for, check_line, codex_config_path,
    mcp_profile_recommendations, next_steps, registry_path, usage, AgentKind, InstallOptions,
    McpConfigOptions, ToolProfileName, UninstallOptions,
};

fn options(agent: AgentKind, config_path: &str) -> InstallOptions {
    InstallOptions {
        agent,
        server_name: "b3".to_string(),
        command_path: "C:\\Tools\\b3\\b3-mcp-runtime.exe".to_string(),
        project_path: "/tmp/work/project".to_string(),
        database_path: "/tmp/work/project/.b3/b3.db".to_string(),
        profile: ToolProfileName::Optimized,
        config_path: Some(config_path.to_string()),
        apply: false,
        backup: true,
    }
}

#[test]
fn mcp_profile_recommendations_do_not_add_git_tools() {
    let output = mcp_profile_recommendations();

    assert!(output.contains("optimized"));
    assert!(output.contains("full"));
    assert!(output.contains("tiny"));
    assert!(!output.contains("git_status"));
    assert!(!output.contains("git_changed_files"));
}

#[test]
fn codex_config_snippet_includes_profile_and_scope_paths() {
    let opts = options(AgentKind::Codex, "/tmp/work/config.toml");
    let snippet = codex_snippet(&opts);

    assert!(snippet.contains("[mcp_servers.b3]"));
    assert!(snippet.contains("--profile"));
    assert!(snippet.contains("optimized"));
    assert!(snippet.contains("enabled = true"));
    assert!(snippet.contains("command = \"C:\\\\Tools\\\\b3\\\\b3-mcp-runtime.exe\""));
}

#[test]
fn custom_profile_and_server_name_are_used() {
    let mut opts = options(AgentKind::Codex, "/tmp/work/config.toml");
    opts.server_name = "workspace".to_string();
    opts.profile = ToolProfileName::Enterprise;
    let snippet = codex_snippet(&opts);

    assert!(snippet.contains("[mcp_servers.workspace]"));
    assert!(snippet.contains("\"enterprise\""));
}

#[test]
fn codex_update_is_idempotent_and_preserves_unrelated_config() {
    let opts = options(AgentKind::Codex, "/tmp/work/config.toml");
    let first = update_codex_config("theme = \"dark\"\n", &opts).expect("first");
    let second = update_codex_config(&first, &opts).expect("second");

    assert!(second.contains("theme = \"dark\""));
    assert_eq!(second.matches("[mcp_servers.b3]").count(), 1);
    assert_eq!(first, second);
}

#[test]
fn invalid_toml_like_header_is_not_overwritten() {
    let opts = options(AgentKind::Codex, "/tmp/work/config.toml");
    let error = update_codex_config("[broken\nvalue = true", &opts).expect_err("invalid");

    assert!(error.contains("invalid TOML-like header"));
    assert!(error.ends_with(": [broken"));
    assert!(validate_toml_like("[ok]\na = 1\n").is_ok());
}

#[test]
fn removing_a_codex_server_keeps_other_sections() {
    let existing = "a = 1\n[mcp_servers.b3]\ncommand = \"x\"\nargs = [\n]\n[mcp_servers.other]\ncommand = \"y\"\n\n";
    let removed = remove_codex_server(existing, "b3").expect("removed");
    assert_eq!(removed, "a = 1\n[mcp_servers.other]\ncommand = \"y\"");
    let untouched = remove_codex_server("a = 1\n", "b3").expect("untouched");
    assert_eq!(untouched, "a = 1");
}

#[test]
fn escapes_backslashes_and_quotes() {
    assert_eq!(escape_toml("C:\\a \"b\""), "C:\\\\a \\\"b\\\"");
}

#[test]
fn server_names_are_checked() {
    assert!(validate_server_name("b3_local-1").is_ok());
    assert_eq!(
        validate_server_name("  ").unwrap_err(),
        "server name must not be empty"
    );
    assert!(validate_server_name("b 3").unwrap_err().contains("ASCII letters"));
}

#[test]
fn mcp_codex_template_generates_cargo_run_toml() {
    let options = McpConfigOptions {
        agent: AgentKind::Codex,
        server_name: "b3".to_string(),
        command_path: "b3-mcp-runtime".to_string(),
        project_path: "/tmp/work/project".to_string(),
        database_path: "/tmp/work/project/.b3/b3.db".to_string(),
        profile: ToolProfileName::Full,
        config_path: Some("/tmp/work/config.toml".to_string()),
        cargo_run: true,
        repo_path: "C:\\Repos\\b3_mcp".to_string(),
    };
    let content = codex_mcp_template(&options);

    assert!(content.contains("[mcp_servers.b3]"));
    assert!(content.contains("command = \"cargo\""));
    assert!(content.contains("\"run\","));
    assert!(content.contains("\"b3-mcp-runtime\","));
    assert!(content.contains("\"full\","));
    assert!(content.contains("cwd = \"C:\\\\Repos\\\\b3_mcp\""));
    assert!(content.contains("startup_timeout_sec = 30"));
    assert!(content.contains("tool_timeout_sec = 60"));
    assert!(content.ends_with("tool_timeout_sec = 60\n"));
    assert_eq!(mcp_command(&options), "cargo");
    assert_eq!(mcp_args(&options)[0], "run");
}

#[test]
fn binary_template_uses_the_runtime_command() {
    let options = McpConfigOptions {
        agent: AgentKind::Codex,
        server_name: "b3".to_string(),
        command_path: "b3-mcp-runtime".to_string(),
        project_path: "p".to_string(),
        database_path: "d".to_string(),
        profile: ToolProfileName::Tiny,
        config_path: None,
        cargo_run: false,
        repo_path: ".".to_string(),
    };
    assert_eq!(
        codex_mcp_template(&options),
        "[mcp_servers.b3]\nenabled = true\ncommand = \"b3-mcp-runtime\"\nargs = [\n  \"serve\",\n  \"--project\",\n  \"p\",\n  \"--database\",\n  \"d\",\n  \"--profile\",\n  \"tiny\",\n]\nstartup_timeout_sec = 20\ntool_timeout_sec = 60\n"
    );
    assert_eq!(options.target_path("/home/u/.codex/config.toml"), "/home/u/.codex/config.toml");
}

#[test]
fn agents_and_profiles_parse_by_name() {
    assert_eq!("codex".parse::<AgentKind>(), Ok(AgentKind::Codex));
    assert_eq!(
        "vim".parse::<AgentKind>().unwrap_err(),
        "unsupported agent: vim; supported agents: codex, cursor"
    );
    assert_eq!("web-app".parse::<ToolProfileName>(), Ok(ToolProfileName::WebApp));
    assert!("invalid"
        .parse::<ToolProfileName>()
        .unwrap_err()
        .contains("invalid tool profile"));
    assert_eq!(ToolProfileName::default().to_string(), "optimized");
    assert_eq!(AgentKind::Cursor.as_str(), "cursor");
}

#[test]
fn config_targets_follow_the_agent() {
    let uninstall = UninstallOptions {
        agent: AgentKind::Cursor,
        server_name: "b3".to_string(),
        project_path: "/w/app".to_string(),
        config_path: None,
        apply: false,
        backup: true,
    };
    assert_eq!(uninstall.target_path("/h/.codex/config.toml"), "/w/app/.cursor/mcp.json");
    let codex = options(AgentKind::Codex, "/x/c.toml");
    assert_eq!(codex.target_path("/h/.codex/config.toml"), "/x/c.toml");
    let mut default_codex = codex.clone();
    default_codex.config_path = None;
    assert_eq!(default_codex.target_path("/h/.codex/config.toml"), "/h/.codex/config.toml");
}

#[test]
fn home_and_registry_paths() {
    assert_eq!(b3_home(Some("/b3".to_string()), None, None), "/b3");
    assert_eq!(b3_home(None, None, Some("/home/u".to_string())), "/home/u/.b3");
    assert_eq!(b3_home(None, None, None), ".b3");
    assert_eq!(registry_path("/home/u/.b3"), "/home/u/.b3/registry.json");
    assert_eq!(
        codex_config_path(None, Some("/home/u/".to_string())),
        "/home/u/.codex/config.toml"
    );
}

#[test]
fn backup_filename_contains_marker() {
    let backup = backup_path_for("config.toml");
    assert!(backup.contains(".b3-backup-"));
    assert_eq!(backup_path_at("/a/b/config.toml", 42), "/a/b/config.toml.b3-backup-42");
    assert_eq!(backup_path_at("/", 7), "/config.b3-backup-7");
}

#[test]
fn doctor_lines_and_next_steps() {
    assert_eq!(check_line("project path", true, "/p"), "OK project path: /p");
    assert_eq!(check_line("database file", false, "/d"), "WARN database file: /d");
    let steps = next_steps("/p", "/d");
    assert!(steps.starts_with("next steps:\n  b3-control-server init --project \"/p\" --database \"/d\""));
    assert!(steps.ends_with("--port 7777"));
    assert!(usage().starts_with("usage:\n  b3 mcp config"));
}

#[test]
fn a_second_codex_install_changes_nothing() {
    let opts = options(AgentKind::Codex, "/home/u/.codex/config.toml");
    let existing = "theme = \"dark\"\n\n[mcp_servers.b3]\ncommand = \"old\"\n\n[other]\nx = 1\n";
    let first = update_codex_config(existing, &opts).expect("first");
    let second = update_codex_config(&first, &opts).expect("second");

    assert_eq!(second, first);
    assert!(first.contains("[other]\nx = 1"));
    assert!(!first.contains("command = \"old\""));
}

#[test]
fn removing_after_installing_restores_the_rest_of_the_config() {
    let opts = options(AgentKind::Codex, "/home/u/.codex/config.toml");
    let existing = "theme = \"dark\"\n\n[other]\nx = 1\n\n";
    let installed = update_codex_config(existing, &opts).expect("install");
    let removed = remove_codex_server(&installed, "b3").expect("remove");

    assert_eq!(removed, "theme = \"dark\"\n\n[other]\nx = 1");
    assert_eq!(removed, remove_codex_server(existing, "b3").expect("plain"));
}
