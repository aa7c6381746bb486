use b3_local::bench::config::{
    branch_safety_report, default_optional_projects, inspect_optional_projects,
    optional_project_paths, parse_benchmark_config, unquote,
};
use b3_local::bench::{
    best_snippet, checked_best_snippet, clamp_chars, estimate_tokens, expected_file_match,
    framework_for_path, language_for_path,
    terms, token_savings_summary, ContextProfile,
};

#[test]
fn token_estimate_uses_chars_divided_by_four() {
    assert_eq!(estimate_tokens(0), 0);
    assert_eq!(estimate_tokens(1), 1);
    assert_eq!(estimate_tokens(8), 2);
}

#[test]
fn token_estimate_rounds_up_at_the_top_of_the_range() {
    assert_eq!(estimate_tokens(9), 3);
    assert_eq!(estimate_tokens(usize::MAX), usize::MAX / 4 + 1);
}

#[test]
fn clamp_keeps_whole_characters() {
    assert_eq!(clamp_chars("héllo", 2), "hé");
    assert_eq!(clamp_chars("abc", 10), "abc");
    assert_eq!(clamp_chars("abc", 0), "");
}

#[test]
fn query_terms_split_lowercase_and_drop_short_pieces() {
    assert_eq!(
        terms("Where is OrderService.create_order used? a to"),
        vec!["where", "orderservice.create", "order", "used"]
    );
    assert!(terms("").is_empty());
}

#[test]
fn expected_files_match_by_suffix() {
    let expected = vec!["rust/orders.rs".to_string(), "b.ts".to_string()];
    assert!(expected_file_match("fixtures/rust/orders.rs", &expected));
    assert!(!expected_file_match("fixtures/rust/orders.rs.bak", &expected));
}

#[test]
fn languages_and_frameworks_follow_paths() {
    assert_eq!(language_for_path("a/b.tsx"), Some("tsx".to_string()));
    assert_eq!(language_for_path("a/b.ts"), Some("typescript".to_string()));
    assert_eq!(language_for_path("k8s/deployment.yml"), Some("yaml".to_string()));
    assert_eq!(language_for_path("README.md"), None);
    assert_eq!(framework_for_path("web/OrderPanel.tsx", ""), Some("react".to_string()));
    assert_eq!(framework_for_path("svc/main.go", ""), Some("net/http".to_string()));
    assert_eq!(
        framework_for_path("svc/events.rs", "emit(\"order.created\")"),
        Some("messaging".to_string())
    );
    assert_eq!(framework_for_path("svc/lib.rs", "fn main() {}"), None);
}

#[test]
fn context_profiles_have_fixed_budgets() {
    assert_eq!(ContextProfile::Minimal.name(), "minimal");
    assert_eq!(ContextProfile::Balanced.top_k(), 6);
    assert_eq!(ContextProfile::Deep.max_snippet_chars(), 800);
}

#[test]
fn token_savings_use_the_estimate() {
    let summary = token_savings_summary(100, 30, 70);
    assert_eq!(summary.estimated_naive_tokens, 25);
    assert_eq!(summary.estimated_selected_tokens, 8);
    assert_eq!(summary.estimated_token_reduction_percent, 70);
    assert_eq!(token_savings_summary(0, 0, 50).estimated_token_reduction_percent, 0);
}

#[test]
fn unquote_trims_quotes_and_collapses_backslashes() {
    assert_eq!(unquote("  \"D:\\\\Project\\\\B\"  "), "D:\\Project\\B");
    assert_eq!(unquote("\"\"\""), "");
    assert_eq!(unquote("a\\\\\\b"), "a\\\\b");
}

#[test]
fn config_parsing_keeps_optional_projects_optional() {
    let (config, warnings) = parse_benchmark_config(
        r#"
        local_only = true
        offline_required = true
        telemetry = false
        [targets]
        token_reduction_multiplier = 10.0
        tool_call_reduction_multiplier = 2.1
        answer_quality = 0.8
        [[projects]]
        id = "project_b"
        name = "Project_B"
        path = "D:\\Project\\Project_B"
        database = "D:\\Project\\Project_B\\.b3\\b3.db"
        enabled = true
        required = false
        "#,
    );
    assert!(warnings.is_empty());
    assert_eq!(config.projects.len(), 1);
    assert!(!config.projects[0].required);
    assert_eq!(config.projects[0].path, "D:\\Project\\Project_B");
    assert_eq!(config.targets.token_reduction_multiplier, vec!["10.0".to_string()]);
    assert_eq!(config.targets.answer_quality, vec!["0.8".to_string()]);
}

#[test]
fn empty_config_warns_and_uses_default_projects() {
    let (config, warnings) = parse_benchmark_config("# nothing here\n[defaults]\nbranch = dev # note\n");
    assert_eq!(warnings.len(), 3);
    assert_eq!(config.defaults.branch, "dev");
    assert_eq!(config.projects.len(), 3);
    assert_eq!(config.projects.len(), default_optional_projects().len());
    assert_eq!(config.projects[0].id, "b3_mcp");
}

#[test]
fn projects_take_the_default_branch_and_can_be_disabled() {
    let (config, _) = parse_benchmark_config(
        "[defaults]\nbranch = trunk\ndatabase_relative_path = db/x.db\n[[projects]]\nid = a\n[[projects]]\nid = b\nenabled = false\n[other]\nid = ignored\n",
    );
    assert_eq!(config.projects.len(), 2);
    assert_eq!(config.projects[0].branch, "trunk");
    assert!(config.projects[0].enabled);
    assert!(!config.projects[1].enabled);
    let paths = optional_project_paths(&config);
    assert_eq!(paths, vec![("".to_string(), "db/x.db".to_string())]);
    let statuses = inspect_optional_projects(&config, &vec![(true, false)]);
    assert_eq!(statuses.len(), 1);
    assert_eq!(statuses[0].name, "a");
    assert!(!statuses[0].used);
    assert_eq!(
        statuses[0].warning.as_deref(),
        Some("Optional benchmark database not found: db/x.db")
    );
}

#[test]
fn missing_optional_paths_warn_not_fail() {
    let (config, _) = parse_benchmark_config(
        "[[projects]]\nid = missing\nname = Missing\npath = Z:\\definitely\\missing\ndatabase = Z:\\definitely\\missing\\.b3\\b3.db\n",
    );
    let statuses = inspect_optional_projects(&config, &vec![(false, false)]);
    assert_eq!(statuses.len(), 1);
    assert!(!statuses[0].used);
    assert!(statuses[0].warning.as_deref().unwrap().contains("path not found"));
}

#[test]
fn branch_safety_reports_assumptions() {
    let report = branch_safety_report("feature");
    assert_eq!(report.requested_branch, "feature");
    assert_eq!(report.branch_used, "main");
    assert_eq!(report.warnings.len(), 2);
    assert!(!report.full_git_intelligence_ready);
}

#[test]
fn best_snippet_starts_before_the_first_hit() {
    let content = "fn main() { let total = 1; }";

    assert_eq!(best_snippet(content, "Total sum", 8), "t total ");
    assert_eq!(best_snippet(content, "nothing", 5), "fn ma");
    assert_eq!(checked_best_snippet(content, "total", 100).as_deref(), Some(content));
}

#[test]
fn snippet_offsets_taken_in_lowercased_text_may_miss_a_character() {
    assert_eq!(checked_best_snippet("\u{130}\u{20ac} xyz", "xyz", 16), None);
    assert_eq!(checked_best_snippet("\u{130}\u{20ac} xyz", "xyz", 0).as_deref(), Some(""));
}
