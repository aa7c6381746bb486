//! Summaries of build, test, lint, container, search and preview output,
//! and the generic fallback.
use vstd::prelude::*;

use crate::compaction::report::{cap, capped_list, capped_list_text, count_field, exit_code_text, fields_view, lemma_filter_take, push_exit_code_text, push_selected, push_status_word, status_word, Fields, MAX_FILES, MAX_SNIPPETS};
use crate::line_set::{insert_sorted, lemma_sorted_items, sorted_items, strictly_sorted};
use crate::text::{contains, contains_str, dec, ends_with, ends_with_str, has_char, has_non_ws, has_non_ws_vec, first_index, lower, lower_vec, push_dec, push_str, vv, Lines};

verus! {

broadcast use vstd::string::group_string_axioms;

/// A build line reporting an error, a failure, an exception or a panic.
pub open spec fn build_error_pred() -> spec_fn(Seq<char>) -> bool {
    |l: Seq<char>|
        {
            let lw = lower(l);
            contains(lw, "error"@) || contains(lw, "failed"@) || contains(lw, "exception"@)
                || contains(lw, "panic"@)
        }
}

/// A build line with a warning that is not also an error.
pub open spec fn build_warning_pred() -> spec_fn(Seq<char>) -> bool {
    |l: Seq<char>| !build_error_pred()(l) && contains(lower(l), "warning"@)
}

/// A line reporting failed tests.
pub open spec fn test_failure_pred() -> spec_fn(Seq<char>) -> bool {
    |l: Seq<char>|
        {
            let lw = lower(l);
            contains(lw, "test"@) && (contains(lw, "failed"@) || contains(lw, "failures"@))
        }
}

/// A line that sums a build or test run up.
pub open spec fn build_summary_pred() -> spec_fn(Seq<char>) -> bool {
    |l: Seq<char>|
        {
            let lw = lower(l);
            contains(lw, "test result:"@) || contains(lw, "build failed"@) || contains(
                lw,
                "build succeeded"@,
            ) || contains(lw, "compilation complete"@) || contains(lw, "found "@)
        }
}

/// The first forty lines `pred` accepts.
pub open spec fn first_snippets(ls: Lines, pred: spec_fn(Seq<char>) -> bool) -> Lines {
    cap(ls.filter(pred), MAX_SNIPPETS as nat)
}

/// The summary of a build or test run, headed by `label`.
pub open spec fn build_body(ls: Lines, exit_code: Option<i32>, label: Seq<char>) -> Seq<char> {
    let warnings = first_snippets(ls, build_warning_pred());
    label + " summary\nstatus: "@ + status_word(exit_code) + "\nerrors:\n"@ + capped_list(
        first_snippets(ls, build_error_pred()),
        MAX_SNIPPETS as nat,
    ) + "\nwarnings: "@ + dec(warnings.len()) + "\n"@ + capped_list(warnings, MAX_SNIPPETS as nat)
        + "\nfailed tests / exceptions:\n"@ + capped_list(
        first_snippets(ls, test_failure_pred()),
        MAX_SNIPPETS as nat,
    ) + "\nfinal summary:\n"@ + capped_list(
        first_snippets(ls, build_summary_pred()),
        MAX_SNIPPETS as nat,
    )
}

pub open spec fn build_fields(ls: Lines) -> Fields {
    seq![
        ("error_count"@, dec(first_snippets(ls, build_error_pred()).len())),
        ("warning_count"@, dec(first_snippets(ls, build_warning_pred()).len())),
    ]
}

/// A container line reporting a problem.
pub open spec fn docker_issue_pred() -> spec_fn(Seq<char>) -> bool {
    |l: Seq<char>|
        {
            let lw = lower(l);
            contains(lw, "unhealthy"@) || contains(lw, "exited"@) || contains(lw, "error"@)
                || contains(lw, "failed"@)
        }
}

/// A container line naming a container, a service or a published port.
pub open spec fn docker_service_pred() -> spec_fn(Seq<char>) -> bool {
    |l: Seq<char>|
        {
            let lw = lower(l);
            contains(lw, "container"@) || contains(lw, "service"@) || contains(lw, "0.0.0.0:"@)
                || contains(lw, "127.0.0.1:"@)
        }
}

pub open spec fn docker_services(ls: Lines) -> Lines {
    cap(ls.filter(docker_service_pred()), MAX_FILES as nat)
}

/// The summary of container tool output.
pub open spec fn docker_body(ls: Lines, exit_code: Option<i32>) -> Seq<char> {
    "docker summary\nstatus: "@ + status_word(exit_code) + "\nservices/ports:\n"@ + capped_list(
        docker_services(ls),
        MAX_FILES as nat,
    ) + "\nissues:\n"@ + capped_list(
        first_snippets(ls, docker_issue_pred()),
        MAX_SNIPPETS as nat,
    )
}

pub open spec fn docker_fields(ls: Lines) -> Fields {
    seq![("service_lines"@, dec(docker_services(ls).len()))]
}

/// The file part of a search hit: what precedes its first `':'`.
pub open spec fn hit_file(l: Seq<char>) -> Seq<char> {
    l.take(first_index(l, ':') as int)
}

/// The files search hits name: the part before the first `':'` of each line
/// that has one, unless that part is blank.
pub open spec fn search_files(ls: Lines) -> Set<Seq<char>>
    decreases ls.len(),
{
    if ls.len() == 0 {
        Set::empty()
    } else {
        let l = ls.last();
        let s = search_files(ls.drop_last());
        if has_char(l, ':') && has_non_ws(hit_file(l)) {
            s.insert(hit_file(l))
        } else {
            s
        }
    }
}

/// The summary of search output.
pub open spec fn search_body(ls: Lines) -> Seq<char> {
    let files = sorted_items(search_files(ls));
    "search summary\nmatches: "@ + dec(ls.len()) + "\nfiles: "@ + dec(files.len())
        + "\ntop files:\n"@ + capped_list(files, MAX_FILES as nat) + "\nfirst matches:\n"@
        + capped_list(cap(ls, MAX_SNIPPETS as nat), MAX_SNIPPETS as nat)
}

pub open spec fn search_fields(ls: Lines) -> Fields {
    seq![
        ("file_count"@, dec(sorted_items(search_files(ls)).len())),
        ("match_count"@, dec(ls.len())),
    ]
}

/// A line that looks like a directory.
pub open spec fn is_dir_like(l: Seq<char>) -> bool {
    ends_with(l, "\\"@) || ends_with(l, "/"@)
}

pub open spec fn dir_count(ls: Lines) -> nat
    decreases ls.len(),
{
    if ls.len() == 0 {
        0
    } else {
        dir_count(ls.drop_last()) + if is_dir_like(ls.last()) {
            1nat
        } else {
            0nat
        }
    }
}

/// The summary of a file or tree preview.
pub open spec fn preview_body(ls: Lines) -> Seq<char> {
    "preview summary\nlines: "@ + dec(ls.len()) + "\ndirectory_like_lines: "@ + dec(dir_count(ls))
        + "\nfirst lines:\n"@ + capped_list(ls, MAX_SNIPPETS as nat)
}

pub open spec fn preview_fields(ls: Lines) -> Fields {
    seq![("preview_lines"@, dec(ls.len()))]
}

/// A line mentioning an error, a failure, a warning, a panic or an exception.
pub open spec fn important_pred() -> spec_fn(Seq<char>) -> bool {
    |l: Seq<char>|
        {
            let lw = lower(l);
            contains(lw, "error"@) || contains(lw, "failed"@) || contains(lw, "warning"@)
                || contains(lw, "panic"@) || contains(lw, "exception"@)
        }
}

/// The important lines, or the first forty lines when none is.
pub open spec fn important(ls: Lines) -> Lines {
    let imp = ls.filter(important_pred());
    if imp.len() == 0 {
        cap(ls, MAX_SNIPPETS as nat)
    } else {
        imp
    }
}

/// The summary of output from any other command.
pub open spec fn generic_body(ls: Lines, exit_code: Option<i32>) -> Seq<char> {
    "command summary\nstatus: "@ + status_word(exit_code) + "\nexit_code: "@ + exit_code_text(
        exit_code,
    ) + "\nimportant output:\n"@ + capped_list(important(ls), MAX_SNIPPETS as nat)
}

pub open spec fn generic_fields(ls: Lines) -> Fields {
    seq![("generic_lines"@, dec(ls.len()))]
}

// ---------------------------------------------------------------------------
// Executable summaries
// ---------------------------------------------------------------------------

proof fn lemma_empty_selection(pred: spec_fn(Seq<char>) -> bool, limit: nat)
    ensures
        cap(Seq::<Seq<char>>::empty().filter(pred), limit) == Seq::<Seq<char>>::empty(),
{
    reveal(Seq::filter);
}

fn contains_any(lw: &Vec<char>, a: &str, b: &str, c: &str, d: &str) -> (r: bool)
    ensures
        r == (contains(lw@, a@) || contains(lw@, b@) || contains(lw@, c@) || contains(lw@, d@)),
{
    contains_str(lw, a) || contains_str(lw, b) || contains_str(lw, c) || contains_str(lw, d)
}

/// Summarises a build or test run: errors, warnings, failed tests and the
/// final summary lines.
pub fn compact_build_like(ls: &Vec<Vec<char>>, exit_code: Option<i32>, label: &str) -> (r: (
    Vec<char>,
    Vec<(String, String)>,
))
    ensures
        r.0@ == build_body(vv(ls@), exit_code, label@),
        fields_view(r.1@) == build_fields(vv(ls@)),
{
    let ghost lv = vv(ls@);
    let mut errors: Vec<Vec<char>> = Vec::new();
    let mut warnings: Vec<Vec<char>> = Vec::new();
    let mut failures: Vec<Vec<char>> = Vec::new();
    let mut summaries: Vec<Vec<char>> = Vec::new();
    proof {
        assert(lv.take(0) =~= Seq::<Seq<char>>::empty());
        lemma_empty_selection(build_error_pred(), MAX_SNIPPETS as nat);
        lemma_empty_selection(build_warning_pred(), MAX_SNIPPETS as nat);
        lemma_empty_selection(test_failure_pred(), MAX_SNIPPETS as nat);
        lemma_empty_selection(build_summary_pred(), MAX_SNIPPETS as nat);
    }
    assert(vv(errors@) =~= Seq::<Seq<char>>::empty());
    assert(vv(warnings@) =~= Seq::<Seq<char>>::empty());
    assert(vv(failures@) =~= Seq::<Seq<char>>::empty());
    assert(vv(summaries@) =~= Seq::<Seq<char>>::empty());
    let mut i: usize = 0;
    while i < ls.len()
        invariant
            lv == vv(ls@),
            i <= ls.len(),
            vv(errors@) == first_snippets(lv.take(i as int), build_error_pred()),
            vv(warnings@) == first_snippets(lv.take(i as int), build_warning_pred()),
            vv(failures@) == first_snippets(lv.take(i as int), test_failure_pred()),
            vv(summaries@) == first_snippets(lv.take(i as int), build_summary_pred()),
        decreases ls.len() - i,
    {
        let line = &ls[i];
        assert(lv[i as int] == line@);
        let lw = lower_vec(line);
        let is_error = contains_any(&lw, "error", "failed", "exception", "panic");
        let is_warning = !is_error && contains_str(&lw, "warning");
        let is_failure = contains_str(&lw, "test") && (contains_str(&lw, "failed")
            || contains_str(&lw, "failures"));
        let is_summary = contains_any(
            &lw,
            "test result:",
            "build failed",
            "build succeeded",
            "compilation complete",
        ) || contains_str(&lw, "found ");
        push_selected(
            &mut errors,
            line,
            is_error,
            MAX_SNIPPETS,
            Ghost(lv),
            Ghost(i as int),
            Ghost(build_error_pred()),
        );
        push_selected(
            &mut warnings,
            line,
            is_warning,
            MAX_SNIPPETS,
            Ghost(lv),
            Ghost(i as int),
            Ghost(build_warning_pred()),
        );
        push_selected(
            &mut failures,
            line,
            is_failure,
            MAX_SNIPPETS,
            Ghost(lv),
            Ghost(i as int),
            Ghost(test_failure_pred()),
        );
        push_selected(
            &mut summaries,
            line,
            is_summary,
            MAX_SNIPPETS,
            Ghost(lv),
            Ghost(i as int),
            Ghost(build_summary_pred()),
        );
        i += 1;
    }
    assert(lv.take(i as int) =~= lv);
    let mut out: Vec<char> = Vec::new();
    push_str(&mut out, label);
    push_str(&mut out, " summary\nstatus: ");
    push_status_word(&mut out, exit_code);
    push_str(&mut out, "\nerrors:\n");
    capped_list_text(&mut out, &errors, MAX_SNIPPETS);
    push_str(&mut out, "\nwarnings: ");
    push_dec(&mut out, warnings.len());
    push_str(&mut out, "\n");
    capped_list_text(&mut out, &warnings, MAX_SNIPPETS);
    push_str(&mut out, "\nfailed tests / exceptions:\n");
    capped_list_text(&mut out, &failures, MAX_SNIPPETS);
    push_str(&mut out, "\nfinal summary:\n");
    capped_list_text(&mut out, &summaries, MAX_SNIPPETS);
    assert(out@ =~= build_body(lv, exit_code, label@));
    let fields = vec![
        count_field("error_count", errors.len()),
        count_field("warning_count", warnings.len()),
    ];
    assert(fields_view(fields@) =~= build_fields(lv));
    (out, fields)
}

/// Summarises container tool output: services and ports, and problems.
pub fn compact_docker(ls: &Vec<Vec<char>>, exit_code: Option<i32>) -> (r: (
    Vec<char>,
    Vec<(String, String)>,
))
    ensures
        r.0@ == docker_body(vv(ls@), exit_code),
        fields_view(r.1@) == docker_fields(vv(ls@)),
{
    let ghost lv = vv(ls@);
    let mut services: Vec<Vec<char>> = Vec::new();
    let mut issues: Vec<Vec<char>> = Vec::new();
    proof {
        assert(lv.take(0) =~= Seq::<Seq<char>>::empty());
        lemma_empty_selection(docker_service_pred(), MAX_FILES as nat);
        lemma_empty_selection(docker_issue_pred(), MAX_SNIPPETS as nat);
    }
    assert(vv(services@) =~= Seq::<Seq<char>>::empty());
    assert(vv(issues@) =~= Seq::<Seq<char>>::empty());
    let mut i: usize = 0;
    while i < ls.len()
        invariant
            lv == vv(ls@),
            i <= ls.len(),
            vv(services@) == docker_services(lv.take(i as int)),
            vv(issues@) == first_snippets(lv.take(i as int), docker_issue_pred()),
        decreases ls.len() - i,
    {
        let line = &ls[i];
        assert(lv[i as int] == line@);
        let lw = lower_vec(line);
        let is_issue = contains_any(&lw, "unhealthy", "exited", "error", "failed");
        let is_service = contains_any(&lw, "container", "service", "0.0.0.0:", "127.0.0.1:");
        push_selected(
            &mut issues,
            line,
            is_issue,
            MAX_SNIPPETS,
            Ghost(lv),
            Ghost(i as int),
            Ghost(docker_issue_pred()),
        );
        push_selected(
            &mut services,
            line,
            is_service,
            MAX_FILES,
            Ghost(lv),
            Ghost(i as int),
            Ghost(docker_service_pred()),
        );
        i += 1;
    }
    assert(lv.take(i as int) =~= lv);
    let mut out: Vec<char> = Vec::new();
    push_str(&mut out, "docker summary\nstatus: ");
    push_status_word(&mut out, exit_code);
    push_str(&mut out, "\nservices/ports:\n");
    capped_list_text(&mut out, &services, MAX_FILES);
    push_str(&mut out, "\nissues:\n");
    capped_list_text(&mut out, &issues, MAX_SNIPPETS);
    assert(out@ =~= docker_body(lv, exit_code));
    let fields = vec![count_field("service_lines", services.len())];
    assert(fields_view(fields@) =~= docker_fields(lv));
    (out, fields)
}

/// The part of `l` before its first `':'`, if it has one.
fn hit_file_exec(l: &Vec<char>) -> (r: Option<Vec<char>>)
    ensures
        match r {
            Some(f) => has_char(l@, ':') && f@ == hit_file(l@),
            None => !has_char(l@, ':'),
        },
{
    let mut i: usize = 0;
    assert(l@.skip(0) =~= l@);
    while i < l.len() && l[i] != ':'
        invariant
            i <= l.len(),
            forall|j: int| 0 <= j < i ==> l@[j] != ':',
            first_index(l@, ':') == i + first_index(l@.skip(i as int), ':'),
        decreases l.len() - i,
    {
        assert(l@.skip(i as int).drop_first() =~= l@.skip(i + 1));
        i += 1;
    }
    if i == l.len() {
        return None;
    }
    let mut f: Vec<char> = Vec::new();
    let mut k: usize = 0;
    while k < i
        invariant
            k <= i < l.len(),
            f@ == l@.take(k as int),
        decreases i - k,
    {
        f.push(l[k]);
        k += 1;
        assert(f@ =~= l@.take(k as int));
    }
    Some(f)
}

/// Summarises search output: the number of hits, the files hit and the
/// first hits.
pub fn compact_search(ls: &Vec<Vec<char>>) -> (r: (Vec<char>, Vec<(String, String)>))
    ensures
        r.0@ == search_body(vv(ls@)),
        fields_view(r.1@) == search_fields(vv(ls@)),
{
    let ghost lv = vv(ls@);
    let mut files: Vec<Vec<char>> = Vec::new();
    let mut matches: Vec<Vec<char>> = Vec::new();
    assert(lv.take(0) =~= Seq::<Seq<char>>::empty());
    assert(vv(files@) =~= Seq::<Seq<char>>::empty());
    assert(vv(files@).to_set() =~= Set::<Seq<char>>::empty());
    assert(vv(matches@) =~= Seq::<Seq<char>>::empty());
    let mut i: usize = 0;
    while i < ls.len()
        invariant
            lv == vv(ls@),
            i <= ls.len(),
            strictly_sorted(vv(files@)),
            vv(files@).to_set() == search_files(lv.take(i as int)),
            vv(matches@) == cap(lv.take(i as int), MAX_SNIPPETS as nat),
        decreases ls.len() - i,
    {
        let line = &ls[i];
        assert(lv[i as int] == line@);
        assert(lv.take(i + 1).drop_last() =~= lv.take(i as int));
        match hit_file_exec(line) {
            Some(f) => {
                if has_non_ws_vec(&f) {
                    insert_sorted(&mut files, f);
                }
            },
            None => {},
        }
        if matches.len() < MAX_SNIPPETS {
            let ghost before = vv(matches@);
            matches.push(line.clone());
            assert(vv(matches@) =~= before.push(lv[i as int]));
            assert(lv.take(i + 1) =~= lv.take(i as int).push(lv[i as int]));
        } else {
            assert(cap(lv.take(i + 1), MAX_SNIPPETS as nat) =~= cap(
                lv.take(i as int),
                MAX_SNIPPETS as nat,
            ));
        }
        i += 1;
    }
    assert(lv.take(i as int) =~= lv);
    proof {
        lemma_sorted_items(vv(files@));
    }
    let mut out: Vec<char> = Vec::new();
    push_str(&mut out, "search summary\nmatches: ");
    push_dec(&mut out, ls.len());
    push_str(&mut out, "\nfiles: ");
    push_dec(&mut out, files.len());
    push_str(&mut out, "\ntop files:\n");
    capped_list_text(&mut out, &files, MAX_FILES);
    push_str(&mut out, "\nfirst matches:\n");
    capped_list_text(&mut out, &matches, MAX_SNIPPETS);
    assert(out@ =~= search_body(lv));
    let fields = vec![count_field("file_count", files.len()), count_field("match_count", ls.len())];
    assert(fields_view(fields@) =~= search_fields(lv));
    (out, fields)
}

/// Summarises a file or tree preview.
pub fn compact_preview(ls: &Vec<Vec<char>>) -> (r: (Vec<char>, Vec<(String, String)>))
    ensures
        r.0@ == preview_body(vv(ls@)),
        fields_view(r.1@) == preview_fields(vv(ls@)),
{
    let ghost lv = vv(ls@);
    let mut dirs: usize = 0;
    let mut i: usize = 0;
    assert(lv.take(0) =~= Seq::<Seq<char>>::empty());
    while i < ls.len()
        invariant
            lv == vv(ls@),
            i <= ls.len(),
            dirs == dir_count(lv.take(i as int)),
            dirs <= i,
        decreases ls.len() - i,
    {
        assert(lv[i as int] == ls@[i as int]@);
        assert(lv.take(i + 1).drop_last() =~= lv.take(i as int));
        if ends_with_str(&ls[i], "\\") || ends_with_str(&ls[i], "/") {
            dirs += 1;
        }
        i += 1;
    }
    assert(lv.take(i as int) =~= lv);
    let mut out: Vec<char> = Vec::new();
    push_str(&mut out, "preview summary\nlines: ");
    push_dec(&mut out, ls.len());
    push_str(&mut out, "\ndirectory_like_lines: ");
    push_dec(&mut out, dirs);
    push_str(&mut out, "\nfirst lines:\n");
    capped_list_text(&mut out, ls, MAX_SNIPPETS);
    assert(out@ =~= preview_body(lv));
    let fields = vec![count_field("preview_lines", ls.len())];
    assert(fields_view(fields@) =~= preview_fields(lv));
    (out, fields)
}

/// The important lines, or the first forty when none is.
fn important_lines(ls: &Vec<Vec<char>>) -> (r: Vec<Vec<char>>)
    ensures
        vv(r@) == important(vv(ls@)),
{
    let ghost lv = vv(ls@);
    let mut imp: Vec<Vec<char>> = Vec::new();
    proof {
        reveal(Seq::filter);
        assert(lv.take(0) =~= Seq::<Seq<char>>::empty());
    }
    assert(vv(imp@) =~= Seq::<Seq<char>>::empty());
    let mut i: usize = 0;
    while i < ls.len()
        invariant
            lv == vv(ls@),
            i <= ls.len(),
            vv(imp@) == lv.take(i as int).filter(important_pred()),
        decreases ls.len() - i,
    {
        let line = &ls[i];
        assert(lv[i as int] == line@);
        proof {
            lemma_filter_take(lv, important_pred(), i as int);
        }
        let lw = lower_vec(line);
        if contains_any(&lw, "error", "failed", "warning", "panic") || contains_str(
            &lw,
            "exception",
        ) {
            let ghost before = vv(imp@);
            imp.push(line.clone());
            assert(vv(imp@) =~= before.push(lv[i as int]));
        }
        i += 1;
    }
    assert(lv.take(i as int) =~= lv);
    if imp.len() > 0 {
        return imp;
    }
    let mut first: Vec<Vec<char>> = Vec::new();
    let n: usize = if ls.len() < MAX_SNIPPETS {
        ls.len()
    } else {
        MAX_SNIPPETS
    };
    let mut k: usize = 0;
    while k < n
        invariant
            lv == vv(ls@),
            n <= ls.len(),
            k <= n,
            vv(first@) == lv.take(k as int),
        decreases n - k,
    {
        let ghost before = vv(first@);
        first.push(ls[k].clone());
        assert(vv(first@) =~= before.push(lv[k as int]));
        k += 1;
        assert(lv.take(k as int) =~= before.push(lv[k - 1]));
    }
    assert(lv.take(n as int) =~= cap(lv, MAX_SNIPPETS as nat));
    first
}

/// Summarises output from any other command: status, exit code and the
/// important lines.
pub fn compact_generic(ls: &Vec<Vec<char>>, exit_code: Option<i32>) -> (r: (
    Vec<char>,
    Vec<(String, String)>,
))
    ensures
        r.0@ == generic_body(vv(ls@), exit_code),
        fields_view(r.1@) == generic_fields(vv(ls@)),
{
    let ghost lv = vv(ls@);
    let imp = important_lines(ls);
    let mut out: Vec<char> = Vec::new();
    push_str(&mut out, "command summary\nstatus: ");
    push_status_word(&mut out, exit_code);
    push_str(&mut out, "\nexit_code: ");
    push_exit_code_text(&mut out, exit_code);
    push_str(&mut out, "\nimportant output:\n");
    capped_list_text(&mut out, &imp, MAX_SNIPPETS);
    assert(out@ =~= generic_body(lv, exit_code));
    let fields = vec![count_field("generic_lines", ls.len())];
    assert(fields_view(fields@) =~= generic_fields(lv));
    (out, fields)
}

} // verus!
