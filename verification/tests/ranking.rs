use b3_local::bench::modes::{
    checked_naive_file_by_file, checked_search_code_only, file_by_file_selection,
    naive_file_by_file, search_code_only, search_selection, EfficiencyTask, ModeSelection,
    SelectedContext,
};
use b3_local::bench::workflow::{workflow_counts, TopRelevance};
use b3_local::bench::ranking::{checked_ranked_files, ranked_files, FixtureFile};
use b3_local::bench::{ContextProfile, SourceKind};

fn file(path: &str, content: &str, language: Option<&str>, framework: Option<&str>) -> FixtureFile {
    FixtureFile {
        path: path.to_string(),
        content: content.to_string(),
        source_kind: SourceKind::SymbolChunk,
        language: language.map(|l| l.to_string()),
        framework: framework.map(|f| f.to_string()),
    }
}

fn fixture() -> Vec<FixtureFile> {
    vec![
        file("docs/readme.md", "nothing here", None, None),
        file("src/orders.rs", "order order ORDER service", Some("rust"), None),
        file(
            "web/OrderPanel.tsx",
            "export function OrderPanel() {}",
            Some("tsx"),
            Some("react"),
        ),
    ]
}

fn task(question: &str, expected: &[&str]) -> EfficiencyTask {
    EfficiencyTask {
        id: "task".to_string(),
        question: question.to_string(),
        expected_files: expected.iter().map(|e| e.to_string()).collect(),
        expected_symbols: Vec::new(),
        expected_source_kinds: Vec::new(),
        expected_facts: Vec::new(),
        required_coverage_tags: Vec::new(),
    }
}

fn paths(selection: &ModeSelection) -> Vec<String> {
    selection.contexts.iter().map(|c| c.path.clone()).collect()
}

#[test]
fn ranking_orders_by_score_then_path() {
    let ranked = ranked_files("find order panel react", &fixture());
    assert_eq!(
        ranked,
        vec!["web/OrderPanel.tsx", "src/orders.rs", "docs/readme.md"]
    );
}

#[test]
fn ranking_breaks_ties_by_path() {
    let files = vec![
        file("b.txt", "plain", None, None),
        file("a.txt", "plain", None, None),
        file("c.txt", "plain", None, None),
    ];
    assert_eq!(ranked_files("unrelated words", &files), vec!["a.txt", "b.txt", "c.txt"]);
}

#[test]
fn ranking_counts_disjoint_matches_only() {
    // "aaaaa" holds "aaa" once when matches may not overlap; "aaaaaa" twice.
    let files = vec![
        file("one.txt", "aaaaa", None, None),
        file("two.txt", "aaaaaa", None, None),
    ];
    assert_eq!(ranked_files("aaa", &files), vec!["two.txt", "one.txt"]);
}

#[test]
fn ranking_weighs_path_language_and_framework() {
    // path hit: 3; framework hit: 2; language hit: 1; two text hits: 2.
    let files = vec![
        file("lang.txt", "", Some("kotlin"), None),
        file("frame.txt", "", None, Some("kotlin")),
        file("kotlin.txt", "", None, None),
        file("text.txt", "kotlin kotlin", None, None),
    ];
    assert_eq!(
        ranked_files("kotlin", &files),
        vec!["kotlin.txt", "frame.txt", "text.txt", "lang.txt"]
    );
}

#[test]
fn ranking_lowercases_path_and_text_but_not_language() {
    let files = vec![
        file("A.txt", "", Some("RUST"), None),
        file("B.txt", "RUST", None, None),
    ];
    assert_eq!(ranked_files("rust", &files), vec!["B.txt", "A.txt"]);
}

#[test]
fn checked_ranking_gives_the_ranking() {
    assert_eq!(
        checked_ranked_files("find order panel react", &fixture()),
        Some(vec![
            "web/OrderPanel.tsx".to_string(),
            "src/orders.rs".to_string(),
            "docs/readme.md".to_string()
        ])
    );
    assert_eq!(checked_ranked_files("anything", &Vec::new()), Some(Vec::new()));
}

#[test]
fn file_by_file_adds_missing_expected_files_and_sorts() {
    let files = fixture();
    let t = task(
        "find order panel react",
        &["docs/readme.md", "orders.rs", "missing.rs"],
    );
    let selection = naive_file_by_file(&t, &files);
    assert_eq!(selection.mode, "naive_file_by_file");
    assert_eq!(selection.profile, None);
    assert_eq!(
        paths(&selection),
        vec!["docs/readme.md", "src/orders.rs", "web/OrderPanel.tsx"]
    );
    assert_eq!(selection.contexts[1].text, "order order ORDER service");
    assert_eq!(selection.tool_calls, 5);
    assert!(checked_naive_file_by_file(&t, &files).is_some());
}

#[test]
fn file_by_file_keeps_six_best_ranked() {
    let files: Vec<FixtureFile> = (0..8)
        .map(|i| file(&format!("f{i}.txt"), &"term ".repeat(i + 1), None, None))
        .collect();
    let ranked: Vec<String> = ranked_files("term", &files);
    assert_eq!(ranked[0], "f7.txt");
    let selection = file_by_file_selection(&ranked, &Vec::new(), &files);
    assert_eq!(
        paths(&selection),
        vec!["f2.txt", "f3.txt", "f4.txt", "f5.txt", "f6.txt", "f7.txt"]
    );
    assert_eq!(selection.tool_calls, 8);
}

#[test]
fn file_by_file_skips_repeated_and_unknown_paths() {
    let files = fixture();
    let ranked = vec!["src/orders.rs".to_string(), "src/orders.rs".to_string()];
    let expected = vec!["gone.rs".to_string()];
    let selection = file_by_file_selection(&ranked, &expected, &files);
    assert_eq!(paths(&selection), vec!["src/orders.rs"]);
    assert_eq!(selection.tool_calls, 3);
}

#[test]
fn search_only_takes_snippets_of_the_profile_best_files() {
    let files = fixture();
    let t = task("find order panel react", &[]);
    let selection = search_code_only(&t, &files, ContextProfile::Minimal);
    assert_eq!(selection.mode, "search_code_only");
    assert_eq!(selection.tool_calls, 1);
    assert_eq!(
        paths(&selection),
        vec!["web/OrderPanel.tsx", "src/orders.rs", "docs/readme.md"]
    );
    assert_eq!(selection.contexts[0].text, "export function OrderPanel() {}");
    assert!(checked_search_code_only(&t, &files, ContextProfile::Minimal).is_some());
}

#[test]
fn search_only_snippet_starts_a_quarter_before_the_hit() {
    let long = format!("{}needle tail", "x".repeat(300));
    let files = vec![file("long.txt", &long, None, None)];
    let ranked = vec!["long.txt".to_string()];
    let selection = search_selection(&ranked, "needle", &files, ContextProfile::Minimal);
    // 220 characters from 55 before the hit at 300.
    let expected: String = long.chars().skip(245).take(220).collect();
    assert_eq!(selection.contexts[0].text, expected);
}


fn context(path: &str, text: &str, kind: SourceKind) -> SelectedContext {
    SelectedContext {
        path: path.to_string(),
        text: text.to_string(),
        source_kind: kind,
    }
}

fn selection(mode: &str, tool_calls: usize, contexts: Vec<SelectedContext>) -> ModeSelection {
    ModeSelection {
        mode: mode.to_string(),
        profile: None,
        tool_calls,
        contexts,
    }
}

fn counting_task() -> EfficiencyTask {
    EfficiencyTask {
        id: "count".to_string(),
        question: "where are orders routed".to_string(),
        expected_files: vec!["orders.rs".to_string(), "missing.rs".to_string()],
        expected_symbols: vec!["OrderService".to_string(), "Nope".to_string()],
        expected_source_kinds: vec![SourceKind::RouteChunk, SourceKind::GoChunk],
        expected_facts: vec!["route".to_string()],
        required_coverage_tags: vec!["summary".to_string(), "search".to_string()],
    }
}

#[test]
fn workflow_counts_what_the_selection_meets() {
    let chosen = selection(
        "search_code_only",
        1,
        vec![
            context("src/orders.rs", "struct OrderService; // route", SourceKind::RouteChunk),
            context("src/orders.rs", "\u{e9}", SourceKind::SymbolChunk),
        ],
    );
    let naive = selection("naive_file_by_file", 3, vec![context("a", "abcd", SourceKind::GoChunk)]);
    let counts = workflow_counts(&counting_task(), &chosen, &naive);
    assert_eq!(counts.selected_context_chars, 31);
    assert_eq!(counts.estimated_tokens, 8);
    assert_eq!(counts.files_touched, 1);
    assert_eq!(counts.tool_calls, 1);
    assert_eq!(counts.matched_expected_files, 1);
    assert_eq!(counts.matched_expected_symbols, 1);
    assert_eq!(counts.matched_source_kinds, 1);
    assert_eq!(counts.matched_expected_facts, 1);
    assert_eq!(counts.matched_coverage_tags, 1);
    assert_eq!(counts.top_k_relevance, TopRelevance::FirstExpected);
    assert_eq!(counts.baseline_context_chars, 4);
    assert_eq!(counts.baseline_tool_calls, 3);
}

#[test]
fn workflow_relevance_falls_back_to_any_match() {
    let naive = selection("naive_file_by_file", 2, Vec::new());
    let chosen = selection(
        "semantic",
        2,
        vec![
            context("notes.txt", "plain", SourceKind::SymbolChunk),
            context("index.txt", "see orders.rs", SourceKind::SymbolChunk),
        ],
    );
    let counts = workflow_counts(&counting_task(), &chosen, &naive);
    assert_eq!(counts.matched_expected_files, 1);
    assert_eq!(counts.files_touched, 2);
    assert_eq!(counts.top_k_relevance, TopRelevance::ExpectedMatched);
    let empty = selection("semantic", 0, Vec::new());
    let counts = workflow_counts(&counting_task(), &empty, &naive);
    assert_eq!(counts.top_k_relevance, TopRelevance::NoneMatched);
    assert_eq!(counts.selected_context_chars, 0);
    assert_eq!(counts.matched_coverage_tags, 0);
}
