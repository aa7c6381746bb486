use b3_local::bench::modes::{validate_tasks, EfficiencyTask};
use b3_local::bench::quality::{
    evaluate_case, hits_within, validate_cases, CaseOutcome, QualityCase,
};
use b3_local::bench::semantic::{
    semantic_search_context_pack, semantic_search_only, source_kind_priority, SearchHit,
};
use b3_local::bench::{ContextProfile, SourceKind};

fn hit(path: &str, preview: &str, kind: SourceKind) -> SearchHit {
    SearchHit {
        path: path.to_string(),
        text_preview: preview.to_string(),
        source_kind: kind,
        matched_terms: None,
    }
}

fn triples(hits: &b3_local::bench::modes::ModeSelection) -> Vec<(String, String, SourceKind)> {
    hits.contexts
        .iter()
        .map(|c| (c.path.clone(), c.text.clone(), c.source_kind))
        .collect()
}

#[test]
fn context_pack_drops_repeats_and_orders_by_kind_then_path() {
    let long = "x".repeat(300);
    let hits = vec![
        hit("b/notes.md", "note one", SourceKind::SymbolChunk),
        hit("a/route.rs", "GET /orders", SourceKind::RouteChunk),
        hit("b/notes.md", "note one", SourceKind::SymbolChunk),
        hit("a/route.rs", "POST /orders", SourceKind::RouteChunk),
        hit("a/api.rs", &long, SourceKind::ComponentChunk),
    ];
    let pack = semantic_search_context_pack(&hits, ContextProfile::Minimal);
    assert_eq!(pack.mode, "semantic_search_context_pack:minimal");
    assert_eq!(pack.profile.as_deref(), Some("minimal"));
    assert_eq!(pack.tool_calls, 2);
    assert_eq!(
        triples(&pack),
        vec![
            ("a/api.rs".to_string(), "x".repeat(220), SourceKind::ComponentChunk),
            ("a/route.rs".to_string(), "GET /orders".to_string(), SourceKind::RouteChunk),
            ("a/route.rs".to_string(), "POST /orders".to_string(), SourceKind::RouteChunk),
            ("b/notes.md".to_string(), "note one".to_string(), SourceKind::SymbolChunk),
        ]
    );
}

#[test]
fn context_pack_keys_join_path_and_preview_with_a_colon() {
    // "a:b" + ":" + "c" and "a" + ":" + "b:c" are the same key.
    let hits = vec![
        hit("a:b", "c", SourceKind::GoChunk),
        hit("a", "b:c", SourceKind::GoChunk),
    ];
    let pack = semantic_search_context_pack(&hits, ContextProfile::Deep);
    assert_eq!(pack.contexts.len(), 1);
    assert_eq!(pack.contexts[0].path, "a:b");
    assert_eq!(pack.mode, "semantic_search_context_pack:deep");
}

#[test]
fn semantic_search_only_keeps_hits_as_they_come() {
    let hits = vec![
        hit("z.rs", "same", SourceKind::SymbolChunk),
        hit("a.rs", &"y".repeat(500), SourceKind::RouteChunk),
        hit("z.rs", "same", SourceKind::SymbolChunk),
    ];
    let selection = semantic_search_only(&hits, ContextProfile::Balanced);
    assert_eq!(selection.mode, "semantic_search_only");
    assert_eq!(selection.profile, None);
    assert_eq!(selection.tool_calls, 1);
    assert_eq!(
        triples(&selection),
        vec![
            ("z.rs".to_string(), "same".to_string(), SourceKind::SymbolChunk),
            ("a.rs".to_string(), "y".repeat(420), SourceKind::RouteChunk),
            ("z.rs".to_string(), "same".to_string(), SourceKind::SymbolChunk),
        ]
    );
}

#[test]
fn structural_kinds_come_first() {
    assert_eq!(source_kind_priority(SourceKind::RouteChunk), 0);
    assert_eq!(source_kind_priority(SourceKind::ComponentChunk), 0);
    assert_eq!(source_kind_priority(SourceKind::SymbolChunk), 1);
}

fn quality_case(files: &[&str], symbol: Option<&str>, kind: Option<SourceKind>) -> QualityCase {
    QualityCase {
        query: "find order service".to_string(),
        expected_files: files.iter().map(|f| f.to_string()).collect(),
        expected_symbol: symbol.map(|s| s.to_string()),
        expected_source_kind: kind,
        language: None,
        framework: None,
        notes: "case".to_string(),
    }
}

#[test]
fn evaluate_case_ranks_the_first_expected_hit() {
    let case = quality_case(&["orders.rs"], Some("OrderService"), Some(SourceKind::RouteChunk));
    let mut second = hit("src/orders.rs", "struct nothing", SourceKind::RouteChunk);
    second.matched_terms = Some(vec!["order".to_string()]);
    let hits = vec![hit("web/x.tsx", "nothing", SourceKind::ComponentChunk), second];
    let warnings = vec!["No vector data available; using lexical".to_string()];
    let outcome = evaluate_case(&case, &hits, &warnings);
    assert_eq!(outcome.rank, Some(2));
    assert!(outcome.matched_expected_file);
    assert_eq!(outcome.top_path.as_deref(), Some("web/x.tsx"));
    assert_eq!(outcome.result_count, 2);
    assert!(outcome.fallback);
    assert!(outcome.no_vector_fallback);
    assert!(outcome.matched_expected_symbol);
    assert!(!outcome.matched_source_kind);
}

#[test]
fn evaluate_case_reads_the_symbol_in_lowercased_previews() {
    let case = quality_case(&["x.rs"], Some("OrderService"), Some(SourceKind::GoChunk));
    let hits = vec![hit("a/x.rs", "impl ORDERSERVICE {}", SourceKind::GoChunk)];
    let outcome = evaluate_case(&case, &hits, &vec!["partial".to_string()]);
    assert_eq!(outcome.rank, Some(1));
    assert!(outcome.matched_expected_symbol);
    assert!(outcome.matched_source_kind);
    assert!(outcome.fallback);
    assert!(!outcome.no_vector_fallback);
}

#[test]
fn evaluate_case_without_hits_finds_nothing() {
    let case = quality_case(&["x.rs"], None, None);
    let outcome = evaluate_case(&case, &Vec::new(), &Vec::new());
    assert_eq!(outcome.rank, None);
    assert!(!outcome.matched_expected_file);
    assert_eq!(outcome.top_path, None);
    assert_eq!(outcome.result_count, 0);
    assert!(!outcome.fallback);
    assert!(!outcome.matched_expected_symbol);
    assert!(!outcome.matched_source_kind);
}

fn outcome(rank: Option<usize>) -> CaseOutcome {
    CaseOutcome {
        rank,
        top_path: None,
        result_count: 0,
        fallback: false,
        no_vector_fallback: false,
        matched_expected_file: rank.is_some(),
        matched_expected_symbol: false,
        matched_source_kind: false,
    }
}

#[test]
fn hits_within_counts_ranks_up_to_k() {
    let outcomes = vec![outcome(Some(1)), outcome(Some(3)), outcome(None), outcome(Some(5))];
    assert_eq!(hits_within(&outcomes, 1), 1);
    assert_eq!(hits_within(&outcomes, 3), 2);
    assert_eq!(hits_within(&outcomes, 10), 3);
    assert_eq!(hits_within(&Vec::new(), 1), 0);
}

#[test]
fn validate_cases_reports_the_first_problem() {
    let good = quality_case(&["a.rs"], None, None);
    assert_eq!(validate_cases(&vec![good], &vec![vec![true]]), Ok(()));
    let mut blank = quality_case(&["a.rs"], None, None);
    blank.query = "  \t".to_string();
    assert_eq!(
        validate_cases(&vec![blank], &vec![vec![true]]),
        Err("quality query must not be empty".to_string())
    );
    let none = quality_case(&[], None, None);
    assert_eq!(
        validate_cases(&vec![none], &vec![vec![]]),
        Err("quality query has no expected files: find order service".to_string())
    );
    let missing = quality_case(&["a.rs", "b.rs", "c.rs"], None, None);
    assert_eq!(
        validate_cases(&vec![missing], &vec![vec![true, false, false]]),
        Err("missing expected quality fixture target: b.rs".to_string())
    );
}

fn efficiency_task(id: &str, question: &str, files: &[&str]) -> EfficiencyTask {
    EfficiencyTask {
        id: id.to_string(),
        question: question.to_string(),
        expected_files: files.iter().map(|f| f.to_string()).collect(),
        expected_symbols: Vec::new(),
        expected_source_kinds: Vec::new(),
        expected_facts: Vec::new(),
        required_coverage_tags: Vec::new(),
    }
}

#[test]
fn validate_tasks_reports_the_first_problem() {
    let good = efficiency_task("t1", "where?", &["a.rs"]);
    let no_id = efficiency_task(" ", "where?", &["a.rs"]);
    let no_files = efficiency_task("t3", "where?", &[]);
    let missing = efficiency_task("t4", "where?", &["gone.rs"]);
    assert_eq!(validate_tasks(&vec![efficiency_task("t1", "where?", &["a.rs"])], &vec![vec![true]]), Ok(()));
    assert_eq!(
        validate_tasks(&vec![good, no_id], &vec![vec![true], vec![true]]),
        Err("efficiency tasks need id and question".to_string())
    );
    assert_eq!(
        validate_tasks(&vec![no_files, missing], &vec![vec![], vec![false]]),
        Err("efficiency task has no expected files: t3".to_string())
    );
    assert_eq!(
        validate_tasks(&vec![efficiency_task("t4", "where?", &["gone.rs"])], &vec![vec![false]]),
        Err("missing expected efficiency fixture target: gone.rs".to_string())
    );
}

#[test]
fn efficiency_task_table_has_ten_valid_tasks() {
    let tasks = b3_local::bench::tasks::efficiency_tasks();
    assert_eq!(tasks.len(), 10);
    assert_eq!(tasks[0].id, "order_creation_flow");
    assert_eq!(tasks[0].expected_files, vec!["rust/orders.rs", "next/app/api/orders/route.ts"]);
    assert!(tasks[4].expected_symbols.is_empty());
    assert_eq!(tasks[9].expected_source_kinds.len(), 3);
    let present: Vec<Vec<bool>> = tasks.iter().map(|t| vec![true; t.expected_files.len()]).collect();
    assert_eq!(validate_tasks(&tasks, &present), Ok(()));
}
