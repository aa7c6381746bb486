use b3_local::compaction::family::{detect_command_family, CommandFamily};
use b3_local::compaction::{
    compact_command_output, CommandOutputCompactor, CommandOutputInput, CompactionStrategy,
    LocalCommandOutputCompactor,
};

fn input(command: &str, stdout: &str, stderr: &str, exit_code: i32) -> CommandOutputInput {
    CommandOutputInput {
        command: command.to_string(),
        argv: Vec::new(),
        stdout: stdout.to_string(),
        stderr: stderr.to_string(),
        exit_code: Some(exit_code),
        working_directory: None,
        max_bytes: Some(1_200),
    }
}

fn field<'a>(fields: &'a [(String, String)], name: &str) -> Option<&'a str> {
    fields
        .iter()
        .find(|(key, _)| key == name)
        .map(|(_, value)| value.as_str())
}

#[test]
fn detects_command_families() {
    assert_eq!(detect_command_family("git status", &[]), CommandFamily::Git);
    assert_eq!(detect_command_family("cargo test", &[]), CommandFamily::Cargo);
    assert_eq!(detect_command_family("dotnet build", &[]), CommandFamily::Dotnet);
    assert_eq!(detect_command_family("npm test", &[]), CommandFamily::Npm);
    assert_eq!(detect_command_family("pnpm test", &[]), CommandFamily::Pnpm);
    assert_eq!(detect_command_family("yarn test", &[]), CommandFamily::Yarn);
    assert_eq!(detect_command_family("ng test", &[]), CommandFamily::Ng);
    assert_eq!(detect_command_family("tsc --noEmit", &[]), CommandFamily::Tsc);
    assert_eq!(detect_command_family("eslint .", &[]), CommandFamily::Eslint);
    assert_eq!(
        detect_command_family("docker compose ps", &[]),
        CommandFamily::DockerCompose
    );
    assert_eq!(detect_command_family("rg run", &[]), CommandFamily::Rg);
    assert_eq!(detect_command_family("grep run file", &[]), CommandFamily::Grep);
    assert_eq!(detect_command_family("cat README.md", &[]), CommandFamily::Cat);
    assert_eq!(detect_command_family("tree", &[]), CommandFamily::Tree);
    assert_eq!(detect_command_family("wat", &[]), CommandFamily::Unknown);
}

#[test]
fn compacts_git_status() {
    let result = compact_command_output(input(
        "git status",
        "On branch main\nChanges to be committed:\n  modified: src/lib.rs\nUntracked files:\n  docs/notes.txt\n",
        "",
        0,
    ));
    assert_eq!(result.strategy_used, CompactionStrategy::GitStatus);
    assert!(result.compacted_output.contains("staged: 1"));
    assert!(result.compacted_output.contains("untracked: 1"));
}

#[test]
fn compacts_git_diff() {
    let result = compact_command_output(input(
        "git diff",
        "diff --git a/src/lib.rs b/src/lib.rs\n@@ fn run @@\n-old\n+new\n",
        "",
        0,
    ));
    assert!(result.compacted_output.contains("added_lines: 1"));
    assert!(result.compacted_output.contains("deleted_lines: 1"));
}

#[test]
fn compacts_cargo_output_and_preserves_failure() {
    let result = compact_command_output(input(
        "cargo test",
        "error[E0425]: cannot find value\nwarning: unused variable\ntest result: FAILED. 1 failed\n",
        "thread 'x' panicked\n",
        101,
    ));
    assert_eq!(result.command_family, CommandFamily::Cargo);
    assert!(result.compacted_output.contains("status: failed"));
    assert!(result
        .warnings
        .iter()
        .any(|warning| warning.code == "non_zero_exit"));
    assert!(result
        .warnings
        .iter()
        .any(|warning| warning.code == "stderr_present"));
}

#[test]
fn compacts_dotnet_javascript_docker_and_search_outputs() {
    assert_eq!(
        compact_command_output(input("dotnet test", "XUnit failed: MyTest\n", "", 1)).strategy_used,
        CompactionStrategy::Dotnet
    );
    assert_eq!(
        compact_command_output(input("npm test", "TS2322 error\n", "", 1)).strategy_used,
        CompactionStrategy::Javascript
    );
    assert_eq!(
        compact_command_output(input(
            "tsc --noEmit",
            "src/app.ts(1,1): error TS2322\n",
            "",
            1
        ))
        .strategy_used,
        CompactionStrategy::Javascript
    );
    assert_eq!(
        compact_command_output(input(
            "eslint .",
            "src/app.ts  1:1  error  no-undef\n",
            "",
            1
        ))
        .strategy_used,
        CompactionStrategy::Javascript
    );
    assert_eq!(
        compact_command_output(input(
            "docker compose ps",
            "api unhealthy 127.0.0.1:8080\n",
            "",
            1
        ))
        .strategy_used,
        CompactionStrategy::Docker
    );
    let search = compact_command_output(input("rg run", "src/lib.rs:10:run\n", "", 0));
    assert_eq!(search.strategy_used, CompactionStrategy::Search);
    assert!(search.compacted_output.contains("matches: 1"));
    assert_eq!(
        compact_command_output(input("grep run src/lib.rs", "src/lib.rs:run\n", "", 0))
            .strategy_used,
        CompactionStrategy::Search
    );
}

#[test]
fn compacts_cat_and_tree_previews() {
    let cat = compact_command_output(input("cat README.md", "# Title\nbody\n", "", 0));
    assert_eq!(cat.strategy_used, CompactionStrategy::FilePreview);
    assert!(cat.compacted_output.contains("first lines"));
    let tree = compact_command_output(input("tree", "src/\nsrc/lib.rs\n", "", 0));
    assert_eq!(tree.strategy_used, CompactionStrategy::FilePreview);
}

#[test]
fn generic_compaction_truncates_deterministically() {
    let long_output = (0..200)
        .map(|index| format!("error line {index}: repeated failure detail"))
        .collect::<Vec<_>>()
        .join("\n");
    let result = compact_command_output(CommandOutputInput {
        command: "unknown".to_string(),
        argv: Vec::new(),
        stdout: long_output,
        stderr: "fatal error".to_string(),
        exit_code: Some(2),
        working_directory: None,
        max_bytes: Some(400),
    });
    assert!(result.truncated);
    assert!(result.estimated_token_savings > 0);
    assert!(result.compacted_output.contains("fatal error"));
}

#[test]
fn argv_overrides_command_line_and_strips_exe_and_quotes() {
    let argv = vec!["\"Cargo.exe\"".to_string(), "build".to_string()];
    assert_eq!(detect_command_family("ignored", &argv), CommandFamily::Cargo);
    let upper = vec!["Cargo.EXE".to_string()];
    assert_eq!(detect_command_family("ignored", &upper), CommandFamily::Unknown);
    let compose = vec!["docker".to_string(), "Compose".to_string()];
    assert_eq!(detect_command_family("", &compose), CommandFamily::DockerCompose);
    assert_eq!(detect_command_family("docker ps", &[]), CommandFamily::Docker);
    assert_eq!(detect_command_family("docker-compose up", &[]), CommandFamily::DockerCompose);
    assert_eq!(detect_command_family("npx tsc", &[]), CommandFamily::Npm);
    assert_eq!(detect_command_family("ripgrep x", &[]), CommandFamily::Rg);
    assert_eq!(detect_command_family("Get-Content a.txt", &[]), CommandFamily::Cat);
    assert_eq!(detect_command_family("type a.txt", &[]), CommandFamily::Cat);
    assert_eq!(detect_command_family("   ", &[]), CommandFamily::Unknown);
}

#[test]
fn git_status_summary_is_exact() {
    let result = compact_command_output(input(
        "git status",
        "On branch main\nChanges to be committed:\n  modified: src/lib.rs\nUntracked files:\n  docs/notes.txt\n",
        "",
        0,
    ));
    assert_eq!(
        result.compacted_output,
        "git status summary\nOn branch main\nstaged: 1\n- modified: src/lib.rs\nunstaged: 0\n- none\nuntracked: 1\n- docs/notes.txt\nconflicts: 0\n- none"
    );
    assert!(!result.truncated);
    assert_eq!(result.omitted_sections_count, 0);
    assert_eq!(field(&result.metadata.fields, "staged_count"), Some("1"));
    assert_eq!(field(&result.metadata.fields, "untracked_count"), Some("1"));
    assert_eq!(field(&result.metadata.fields, "conflict_count"), Some("0"));
    assert_eq!(result.metadata.line_count, 5);
    assert_eq!(result.metadata.stderr_line_count, 0);
    assert_eq!(result.metadata.max_bytes, 1_200);
    assert!(result.warnings.is_empty());
    assert_eq!(result.key_findings, vec!["conflicts: 0".to_string()]);
}

#[test]
fn git_diff_lists_files_in_order_without_repeats() {
    let result = compact_command_output(input(
        "git diff",
        "diff --git b.rs b.rs\n--- a/b.rs\n+++ b/b.rs\ndiff --git a.rs a.rs\ndiff --git b.rs b.rs\nBinary files x and y differ\n@@ h @@\n+x\n+y\n-z\n",
        "",
        0,
    ));
    assert_eq!(result.strategy_used, CompactionStrategy::GitDiff);
    assert!(result.compacted_output.contains(
        "files:\n- +++ b/b.rs\n- --- a/b.rs\n- a.rs a.rs\n- b.rs b.rs\nimportant snippets:\n- +x\n- +y\n- -z"
    ));
    assert!(result.compacted_output.contains("files_changed: 4\nadded_lines: 2\ndeleted_lines: 1\nbinary_files: 1\nhunks: 1"));
    assert_eq!(field(&result.metadata.fields, "files"), Some("4"));
    assert_eq!(field(&result.metadata.fields, "added"), Some("2"));
    assert_eq!(field(&result.metadata.fields, "deleted"), Some("1"));
}

#[test]
fn search_counts_distinct_files() {
    let result = compact_command_output(input(
        "rg run",
        "src/b.rs:1:run\nsrc/a.rs:2:run\nsrc/b.rs:3:run\n :blank file\nno colon here\n",
        "",
        0,
    ));
    assert!(result
        .compacted_output
        .starts_with("search summary\nmatches: 5\nfiles: 2\ntop files:\n- src/a.rs\n- src/b.rs\nfirst matches:\n"));
    assert_eq!(field(&result.metadata.fields, "file_count"), Some("2"));
    assert_eq!(field(&result.metadata.fields, "match_count"), Some("5"));
}

#[test]
fn build_summary_separates_errors_and_warnings() {
    let result = compact_command_output(input(
        "cargo build",
        "warning: unused\nerror: broken\nwarning: error in macro\nFinished\n",
        "",
        0,
    ));
    assert_eq!(
        result.compacted_output,
        "cargo summary\nstatus: passed\nerrors:\n- error: broken\n- warning: error in macro\nwarnings: 1\n- warning: unused\nfailed tests / exceptions:\n- none\nfinal summary:\n- none"
    );
    assert_eq!(field(&result.metadata.fields, "error_count"), Some("2"));
    assert_eq!(field(&result.metadata.fields, "warning_count"), Some("1"));
    assert_eq!(result.key_findings.len(), 6);
}

#[test]
fn generic_summary_reports_exit_code_and_first_lines() {
    let result = compact_command_output(input("make", "one\ntwo\n", "", 0));
    assert_eq!(
        result.compacted_output,
        "command summary\nstatus: passed\nexit_code: Some(0)\nimportant output:\n- one\n- two"
    );
    let mut missing = input("make", "", "", 0);
    missing.exit_code = None;
    let none = compact_command_output(missing);
    assert!(none.compacted_output.contains("exit_code: None\nimportant output:\n- none"));
    let negative = compact_command_output(input("make", "", "", -3));
    assert!(negative.compacted_output.contains("exit_code: Some(-3)"));
    assert_eq!(negative.key_findings[0], "non-zero exit code: -3");
}

#[test]
fn capped_lists_count_what_they_leave_out() {
    let stdout = (0..45).map(|i| format!("line {i}")).collect::<Vec<_>>().join("\n");
    let mut request = input("cat big.txt", &stdout, "", 0);
    request.max_bytes = Some(100_000);
    let result = compact_command_output(request);
    assert!(result.compacted_output.contains("- line 39\n- ... omitted 5 more"));
    assert!(!result.compacted_output.contains("- line 40"));
}

#[test]
fn truncated_output_fits_budget_and_counts_omitted_lines() {
    let stdout = (0..300).map(|i| format!("error {i}")).collect::<Vec<_>>().join("\n");
    let mut request = input("make", &stdout, "", 1);
    request.max_bytes = Some(10);
    let result = compact_command_output(request);
    assert_eq!(result.metadata.max_bytes, 256);
    assert!(result.truncated);
    assert!(result.compacted_output.len() <= 256);
    assert_eq!(result.compacted_byte_estimate, result.compacted_output.len());
    assert!(result.compacted_output.ends_with(&format!(
        "[truncated: omitted {} lines]\n",
        result.omitted_sections_count
    )));
    assert!(result.warnings.iter().any(|w| w.code == "truncated"));
    assert_eq!(
        result.estimated_token_savings,
        (result.original_byte_estimate - result.compacted_byte_estimate) / 4
    );
}

#[test]
fn key_findings_are_capped_at_twenty() {
    let stdout = (0..30).map(|i| format!("warning {i}")).collect::<Vec<_>>().join("\n");
    let mut request = input("make", &stdout, "", 3);
    request.max_bytes = Some(100_000);
    let result = compact_command_output(request);
    assert_eq!(result.key_findings.len(), 20);
    assert_eq!(result.key_findings[0], "non-zero exit code: 3");
}

#[test]
fn default_budget_applies_without_a_limit() {
    let mut request = input("make", "ok\n", "  \n", 0);
    request.max_bytes = None;
    let result = compact_command_output(request);
    assert_eq!(result.metadata.max_bytes, 8_000);
    assert!(result.warnings.is_empty());
    assert_eq!(result.original_byte_estimate, 6);
}

#[test]
fn local_compactor_matches_free_function() {
    let compactor = LocalCommandOutputCompactor;
    let a = compactor.compact(input("git status", "On branch x\n", "", 0));
    let b = compact_command_output(input("git status", "On branch x\n", "", 0));
    assert_eq!(a, b);
}

#[test]
fn docker_summary_lists_services_and_issues() {
    let result = compact_command_output(input(
        "docker ps",
        "web container up 0.0.0.0:80\nworker exited (1)\n",
        "",
        0,
    ));
    assert_eq!(
        result.compacted_output,
        "docker summary\nstatus: passed\nservices/ports:\n- web container up 0.0.0.0:80\nissues:\n- worker exited (1)"
    );
    assert_eq!(field(&result.metadata.fields, "service_lines"), Some("1"));
}
