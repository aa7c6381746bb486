use b3_local::setup::cursor::{cursor_server_value, needs_parse};
use b3_local::setup::json_text::{
    cursor_mcp_template_text, parse_json_text, pretty_json, remove_cursor_server_text,
    update_cursor_config_text,
};
use b3_local::setup::{AgentKind, InstallOptions, McpConfigOptions, ToolProfileName};
use serde_json::Value;

fn options(agent: AgentKind, config_path: &str) -> InstallOptions {
    InstallOptions {
        agent,
        server_name: "b3".to_string(),
        command_path: "C:\\Tools\\b3\\b3-mcp-runtime.exe".to_string(),
        project_path: "/tmp/work/project".to_string(),
        database_path: "/tmp/work/project/.b3/b3.db".to_string(),
        profile: ToolProfileName::Optimized,
        config_path: Some(config_path.to_string()),
        apply: false,
        backup: true,
    }
}

fn cursor_update(existing: Option<&str>, opts: &InstallOptions) -> Result<String, String> {
    update_cursor_config_text(existing, opts)
}

fn parsed(text: &str) -> Value {
    serde_json::from_str(text).expect("json")
}

#[test]
fn cursor_config_snippet_includes_profile_and_server_name() {
    let mut opts = options(AgentKind::Cursor, "/tmp/work/mcp.json");
    opts.server_name = "local_b3".to_string();
    opts.profile = ToolProfileName::Tiny;
    let content = cursor_update(None, &opts).expect("json");

    assert!(content.contains("\"local_b3\""));
    assert!(content.contains("\"--profile\""));
    assert!(content.contains("\"tiny\""));
}

#[test]
fn mcp_cursor_template_generates_binary_json() {
    let options = McpConfigOptions {
        agent: AgentKind::Cursor,
        server_name: "b3".to_string(),
        command_path: "C:\\Tools\\b3\\b3-mcp-runtime.exe".to_string(),
        project_path: "/tmp/work/project with spaces".to_string(),
        database_path: "/tmp/work/project with spaces/.b3/b3.db".to_string(),
        profile: ToolProfileName::Optimized,
        config_path: Some("/tmp/work/.cursor/mcp.json".to_string()),
        cargo_run: false,
        repo_path: "/tmp/work".to_string(),
    };
    let content = cursor_mcp_template_text(&options);
    let parsed: Value = serde_json::from_str(&content).expect("json");
    let server = &parsed["mcpServers"]["b3"];

    assert_eq!(server["command"], "C:\\Tools\\b3\\b3-mcp-runtime.exe");
    assert!(server["args"]
        .as_array()
        .unwrap()
        .contains(&Value::String("serve".to_string())));
    assert!(server["args"]
        .as_array()
        .unwrap()
        .contains(&Value::String("optimized".to_string())));
    assert!(content.contains("\\\\Tools\\\\b3"));
}

#[test]
fn cargo_run_cursor_template_sets_the_working_directory() {
    let options = McpConfigOptions {
        agent: AgentKind::Cursor,
        server_name: "b3".to_string(),
        command_path: "b3-mcp-runtime".to_string(),
        project_path: "/w/p".to_string(),
        database_path: "/w/p/.b3/b3.db".to_string(),
        profile: ToolProfileName::Full,
        config_path: None,
        cargo_run: true,
        repo_path: "/repo".to_string(),
    };
    let value = parsed(&cursor_mcp_template_text(&options));
    let server = &value["mcpServers"]["b3"];

    assert_eq!(server["command"], "cargo");
    assert_eq!(server["cwd"], "/repo");
    assert_eq!(server["args"][0], "run");
}

#[test]
fn cursor_update_is_idempotent_and_preserves_other_servers() {
    let opts = options(AgentKind::Cursor, "/tmp/work/mcp.json");
    let existing = r#"{"mcpServers":{"other":{"command":"x","args":[]}}}"#;
    let first = cursor_update(Some(existing), &opts).expect("first");
    let second = cursor_update(Some(&first), &opts).expect("second");
    let parsed: Value = serde_json::from_str(&second).expect("json");

    assert!(parsed["mcpServers"].get("other").is_some());
    assert!(parsed["mcpServers"].get("b3").is_some());
    assert_eq!(parsed["mcpServers"].as_object().unwrap().len(), 2);
}

#[test]
fn invalid_json_is_not_overwritten() {
    let opts = options(AgentKind::Cursor, "/tmp/work/mcp.json");
    let error = cursor_update(Some("{ invalid"), &opts).expect_err("invalid");

    assert!(error.contains("invalid JSON config"));
}

#[test]
fn non_object_configs_are_refused() {
    let opts = options(AgentKind::Cursor, "/tmp/work/mcp.json");
    let root = cursor_update(Some("[1, 2]"), &opts).expect_err("root");
    let servers = cursor_update(Some(r#"{"mcpServers": 3}"#), &opts).expect_err("servers");

    assert_eq!(root, "cursor config root must be a JSON object");
    assert_eq!(servers, "cursor config mcpServers must be an object");
}

#[test]
fn blank_config_text_counts_as_empty() {
    let opts = options(AgentKind::Cursor, "/tmp/work/mcp.json");
    let content = cursor_update(Some("  \n "), &opts).expect("blank");
    let parsed: Value = serde_json::from_str(&content).expect("json");

    assert!(!needs_parse(Some(" \t")));
    assert!(needs_parse(Some("{}")));
    assert_eq!(parsed.as_object().unwrap().len(), 1);
    assert_eq!(parsed["mcpServers"]["b3"]["args"][0], "serve");
}

#[test]
fn uninstall_dry_run_removes_only_named_cursor_server() {
    let original =
        r#"{"mcpServers":{"b3":{"command":"b3","args":[]},"other":{"command":"x","args":[]}}}"#;
    let content = remove_cursor_server_text(original, "b3").expect("plan");

    assert!(!content.contains("\"b3\""));
    assert!(content.contains("\"other\""));
    assert!(original.contains("\"b3\""));
}

#[test]
fn removing_from_blank_or_serverless_configs() {
    let blank = remove_cursor_server_text("  \n", "b3").expect("blank");
    let serverless = parsed(&remove_cursor_server_text(r#"{"theme":"dark"}"#, "b3").expect("parse"));

    assert_eq!(blank, "{\n  \"mcpServers\": {}\n}");
    assert_eq!(serverless["theme"], "dark");
    assert!(serverless.get("mcpServers").is_none());
}

#[test]
fn server_value_lists_the_runtime_arguments() {
    let opts = options(AgentKind::Cursor, "/tmp/work/mcp.json");
    let value = parsed(&pretty_json(&cursor_server_value(&opts)));

    assert_eq!(value["command"], "C:\\Tools\\b3\\b3-mcp-runtime.exe");
    assert_eq!(
        value["args"],
        serde_json::from_str::<Value>(
            r#"["serve","--project","/tmp/work/project","--database","/tmp/work/project/.b3/b3.db","--profile","optimized"]"#
        )
        .unwrap()
    );
}

#[test]
fn removing_after_adding_restores_the_cursor_config() {
    let opts = options(AgentKind::Cursor, "/tmp/work/mcp.json");
    let original = r#"{"theme":"dark","mcpServers":{"other":{"command":"x","args":[]}}}"#;
    let added = update_cursor_config_text(Some(original), &opts).expect("add");
    let removed = parsed(&remove_cursor_server_text(&added, "b3").expect("remove"));

    assert_eq!(removed, serde_json::from_str::<Value>(original).unwrap());
}

#[test]
fn invalid_json_is_not_removed_from() {
    let error = remove_cursor_server_text("{ invalid", "b3").expect_err("invalid");
    assert!(error.starts_with("invalid JSON config; not overwriting without a valid parse: "));
    assert!(parse_json_text("{ invalid").is_err());
    assert!(parse_json_text("{}").is_ok());
}
