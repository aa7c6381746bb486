//! The context the plain-text benchmark modes select: every ranked or
//! expected file whole, or a snippet of each of the best ranked files.
use vstd::prelude::*;

use crate::bench::ranking::{checked_ranked_files, file_score, ranked_files, ranked_paths, FixtureFile};
use crate::bench::{
    best_snippet, checked_best_snippet, profile_snippet_chars, profile_top_k, snippet_from, snippet_start,
    ContextProfile, SourceKind,
};
use crate::line_set::{insert_sorted, lemma_lt_irreflexive, lemma_sorted_items, sorted_items, strictly_sorted};
use crate::bench::quality::{first_missing, first_missing_exec, presence_view};
use crate::text::{
    chars_of, ends_with, ends_with_vec, eq_str, has_non_ws, has_non_ws_vec, push_chars, push_str, string_from_chars,
    strings_view, vv, Lines,
};
use vstd::set_lib::{lemma_int_range, lemma_len_subset, set_int_range};

verus! {

broadcast use vstd::string::group_string_axioms;

/// A task of the efficiency benchmark: a question and what a good answer
/// to it draws on.
pub struct EfficiencyTask {
    pub id: String,
    pub question: String,
    pub expected_files: Vec<String>,
    pub expected_symbols: Vec<String>,
    pub expected_source_kinds: Vec<SourceKind>,
    pub expected_facts: Vec<String>,
    pub required_coverage_tags: Vec<String>,
}

/// A piece of context a mode hands on: a path, its text and the kind of
/// chunk it came from.
pub struct SelectedContext {
    pub path: String,
    pub text: String,
    pub source_kind: SourceKind,
}

/// What a benchmark mode selected, and how many tool calls it took.
pub struct ModeSelection {
    pub mode: String,
    pub profile: Option<String>,
    pub tool_calls: usize,
    pub contexts: Vec<SelectedContext>,
}

/// A selected context as path, text and kind.
pub type ContextView = (Seq<char>, Seq<char>, SourceKind);

pub open spec fn contexts_view(v: Seq<SelectedContext>) -> Seq<ContextView> {
    v.map_values(|c: SelectedContext| (c.path@, c.text@, c.source_kind))
}

/// No two files share a path, as in a map keyed by path.
pub open spec fn distinct_paths(files: Seq<FixtureFile>) -> bool {
    forall|i: int, j: int|
        0 <= i < j < files.len() ==> (#[trigger] files[i]).path@ != (#[trigger] files[j]).path@
}

/// File `i` has path `p`.
pub open spec fn has_path(files: Seq<FixtureFile>, p: Seq<char>, i: int) -> bool {
    0 <= i < files.len() && files[i].path@ == p
}

/// The position of the file with path `p`, if there is one.
pub open spec fn path_index(files: Seq<FixtureFile>, p: Seq<char>) -> Option<int> {
    if exists|i: int| has_path(files, p, i) {
        Some(choose|i: int| has_path(files, p, i))
    } else {
        None
    }
}

/// The first `k` ranked paths, or all of them when there are fewer.
pub open spec fn first_ranked(ranked: Lines, k: nat) -> Lines {
    ranked.take(
        if ranked.len() < k {
            ranked.len() as int
        } else {
            k as int
        },
    )
}

/// The selection with each expected file added, in order, that no path
/// selected so far ends with.
pub open spec fn with_expected(sel: Lines, expected: Lines) -> Lines
    decreases expected.len(),
{
    if expected.len() == 0 {
        sel
    } else {
        let prev = with_expected(sel, expected.drop_last());
        if exists|i: int| 0 <= i < prev.len() && ends_with(#[trigger] prev[i], expected.last()) {
            prev
        } else {
            prev.push(expected.last())
        }
    }
}

/// The paths the file-by-file mode reads: the six best ranked, with the
/// expected files they miss, in ascending order without repeats.
pub open spec fn file_by_file_paths(ranked: Lines, expected: Lines) -> Lines {
    sorted_items(with_expected(first_ranked(ranked, 6), expected).to_set())
}

/// Each path's file whole, in the order of the paths; a path of no file
/// gives nothing.
pub open spec fn whole_contexts(paths: Lines, files: Seq<FixtureFile>) -> Seq<ContextView>
    decreases paths.len(),
{
    if paths.len() == 0 {
        Seq::empty()
    } else {
        let prev = whole_contexts(paths.drop_last(), files);
        match path_index(files, paths.last()) {
            Some(i) => prev.push((paths.last(), files[i].content@, files[i].source_kind)),
            None => prev,
        }
    }
}

/// Every path of a file has a snippet start for the question.
pub open spec fn snippets_found(paths: Lines, files: Seq<FixtureFile>, question: Seq<char>, max: nat) -> bool {
    forall|t: int|
        0 <= t < paths.len() ==> match path_index(files, #[trigger] paths[t]) {
            Some(i) => snippet_start(files[i].content@, question, max) is Some,
            None => true,
        }
}

/// A snippet of each path's file for the question, in the order of the
/// paths; a path of no file gives nothing.
pub open spec fn snippet_contexts(paths: Lines, files: Seq<FixtureFile>, question: Seq<char>, max: nat) -> Seq<
    ContextView,
>
    decreases paths.len(),
{
    if paths.len() == 0 {
        Seq::empty()
    } else {
        let prev = snippet_contexts(paths.drop_last(), files, question, max);
        match path_index(files, paths.last()) {
            Some(i) => prev.push(
                (
                    paths.last(),
                    snippet_from(
                        files[i].content@,
                        snippet_start(files[i].content@, question, max)->Some_0,
                        max,
                    ),
                    files[i].source_kind,
                ),
            ),
            None => prev,
        }
    }
}

/// The position of the file with path `p`.
fn find_path(files: &Vec<FixtureFile>, p: &Vec<char>) -> (r: Option<usize>)
    requires
        distinct_paths(files@),
    ensures
        match path_index(files@, p@) {
            Some(i) => r is Some && r->Some_0 == i,
            None => r is None,
        },
        r is Some ==> r->Some_0 < files.len(),
{
    let mut i: usize = 0;
    while i < files.len()
        invariant
            i <= files.len(),
            distinct_paths(files@),
            forall|k: int| 0 <= k < i ==> !has_path(files@, p@, k),
        decreases files.len() - i,
    {
        if eq_str(p, files[i].path.as_str()) {
            proof {
                assert(has_path(files@, p@, i as int));
                let j = choose|j: int| has_path(files@, p@, j);
                if j < i {
                    assert(!has_path(files@, p@, j));
                } else if j > i {
                    assert(files@[i as int].path@ != files@[j].path@);
                }
            }
            return Some(i);
        }
        i += 1;
    }
    None
}

/// The first `k` ranked paths as characters.
fn take_ranked(ranked: &Vec<String>, k: usize) -> (r: Vec<Vec<char>>)
    ensures
        vv(r@) == first_ranked(strings_view(ranked@), k as nat),
{
    let ghost rv = strings_view(ranked@);
    let n: usize = if ranked.len() < k {
        ranked.len()
    } else {
        k
    };
    let mut out: Vec<Vec<char>> = Vec::new();
    let mut i: usize = 0;
    while i < n
        invariant
            n <= ranked.len(),
            i <= n,
            rv == strings_view(ranked@),
            vv(out@) == rv.take(i as int),
        decreases n - i,
    {
        let ghost before = vv(out@);
        out.push(chars_of(ranked[i].as_str()));
        i += 1;
        assert(vv(out@) =~= before.push(rv[i - 1]));
        assert(rv.take(i as int) =~= rv.take(i - 1).push(rv[i - 1]));
    }
    out
}

/// The paths the file-by-file mode reads, for a given ranking.
fn file_by_file_path_list(ranked: &Vec<String>, expected_files: &Vec<String>) -> (r: Vec<Vec<char>>)
    ensures
        vv(r@) == file_by_file_paths(strings_view(ranked@), strings_view(expected_files@)),
        strictly_sorted(vv(r@)),
{
    let ghost ev = strings_view(expected_files@);
    let mut selected = take_ranked(ranked, 6);
    let ghost start = vv(selected@);
    let mut k: usize = 0;
    assert(ev.take(0) =~= Seq::<Seq<char>>::empty());
    while k < expected_files.len()
        invariant
            k <= expected_files.len(),
            ev == strings_view(expected_files@),
            vv(selected@) == with_expected(start, ev.take(k as int)),
        decreases expected_files.len() - k,
    {
        let ghost prev = vv(selected@);
        let e = chars_of(expected_files[k].as_str());
        assert(ev.take(k + 1).drop_last() =~= ev.take(k as int));
        assert(ev.take(k + 1).last() == e@);
        let mut found = false;
        let mut q: usize = 0;
        while q < selected.len()
            invariant
                q <= selected.len(),
                prev == vv(selected@),
                found <==> exists|t: int| 0 <= t < q && ends_with(#[trigger] prev[t], e@),
            decreases selected.len() - q,
        {
            assert(prev[q as int] == selected@[q as int]@);
            if ends_with_vec(&selected[q], &e) {
                found = true;
            }
            q += 1;
        }
        if !found {
            selected.push(e);
            assert(vv(selected@) =~= prev.push(ev.take(k + 1).last()));
        }
        k += 1;
    }
    assert(ev.take(k as int) =~= ev);
    let ghost sel = vv(selected@);
    let mut sorted: Vec<Vec<char>> = Vec::new();
    let mut m: usize = 0;
    assert(sel.take(0) =~= Seq::<Seq<char>>::empty());
    while m < selected.len()
        invariant
            m <= selected.len(),
            sel == vv(selected@),
            strictly_sorted(vv(sorted@)),
            vv(sorted@).to_set() == sel.take(m as int).to_set(),
        decreases selected.len() - m,
    {
        let mut item: Vec<char> = Vec::new();
        push_chars(&mut item, &selected[m]);
        assert(item@ =~= sel[m as int]);
        insert_sorted(&mut sorted, item);
        proof {
            assert(sel.take(m + 1) =~= sel.take(m as int).push(sel[m as int]));
            sel.take(m as int).lemma_push_to_set_commute(sel[m as int]);
        }
        m += 1;
    }
    assert(sel.take(m as int) =~= sel);
    proof {
        lemma_sorted_items(vv(sorted@));
    }
    sorted
}

/// The file-by-file selection for a given ranking of the files: the six
/// best ranked paths and the expected files none of them ends with, in
/// ascending order without repeats, each path's file whole. It takes two
/// tool calls more than it has contexts.
pub fn file_by_file_selection(ranked: &Vec<String>, expected_files: &Vec<String>, files: &Vec<FixtureFile>) -> (r:
    ModeSelection)
    requires
        distinct_paths(files@),
        files.len() < usize::MAX - 1,
    ensures
        r.mode@ == "naive_file_by_file"@,
        r.profile is None,
        contexts_view(r.contexts@) == whole_contexts(
            file_by_file_paths(strings_view(ranked@), strings_view(expected_files@)),
            files@,
        ),
        r.tool_calls == 2 + r.contexts.len(),
{
    let sorted = file_by_file_path_list(ranked, expected_files);
    let ghost paths = vv(sorted@);
    let mut contexts: Vec<SelectedContext> = Vec::new();
    let ghost mut used: Set<int> = Set::empty();
    let mut j: usize = 0;
    assert(paths.take(0) =~= Seq::<Seq<char>>::empty());
    while j < sorted.len()
        invariant
            paths == vv(sorted@),
            strictly_sorted(paths),
            distinct_paths(files@),
            j <= sorted.len(),
            contexts_view(contexts@) == whole_contexts(paths.take(j as int), files@),
            used.finite(),
            used.len() == contexts.len(),
            used.subset_of(set_int_range(0, files.len() as int)),
            forall|u: int|
                #![trigger used.contains(u)]
                used.contains(u) ==> exists|t: int| 0 <= t < j && files@[u].path@ == paths[t],
        decreases sorted.len() - j,
    {
        assert(paths.take(j + 1).drop_last() =~= paths.take(j as int));
        assert(paths.take(j + 1).last() == paths[j as int]);
        match find_path(files, &sorted[j]) {
            Some(x) => {
                proof {
                    if used.contains(x as int) {
                        let t = choose|t: int| 0 <= t < j && files@[x as int].path@ == paths[t];
                        assert(crate::line_set::seq_lt(paths[t], paths[j as int]));
                        lemma_lt_irreflexive(paths[j as int]);
                    }
                }
                let ghost before = contexts_view(contexts@);
                contexts.push(
                    SelectedContext {
                        path: string_from_chars(&sorted[j]),
                        text: files[x].content.clone(),
                        source_kind: files[x].source_kind,
                    },
                );
                proof {
                    used = used.insert(x as int);
                }
                assert(contexts_view(contexts@) =~= before.push(
                    (paths[j as int], files@[x as int].content@, files@[x as int].source_kind),
                ));
            },
            None => {},
        }
        j += 1;
    }
    assert(paths.take(j as int) =~= paths);
    proof {
        lemma_int_range(0, files.len() as int);
        lemma_len_subset(used, set_int_range(0, files.len() as int));
    }
    ModeSelection {
        mode: "naive_file_by_file".to_owned(),
        profile: None,
        tool_calls: 2 + contexts.len(),
        contexts,
    }
}

/// `r` is the file-by-file selection for the ranking `ranked`.
pub open spec fn is_file_by_file(r: ModeSelection, ranked: Lines, expected: Lines, files: Seq<FixtureFile>) -> bool {
    &&& r.mode@ == "naive_file_by_file"@
    &&& r.profile is None
    &&& contexts_view(r.contexts@) == whole_contexts(file_by_file_paths(ranked, expected), files)
    &&& r.tool_calls == 2 + r.contexts.len()
}

/// `r` is the search-only selection of a profile for the ranking `ranked`.
pub open spec fn is_search_only(
    r: ModeSelection,
    ranked: Lines,
    question: Seq<char>,
    files: Seq<FixtureFile>,
    profile: ContextProfile,
) -> bool {
    &&& r.mode@ == "search_code_only"@
    &&& r.profile is None
    &&& r.tool_calls == 1
    &&& contexts_view(r.contexts@) == snippet_contexts(
        first_ranked(ranked, profile_top_k(profile)),
        files,
        question,
        profile_snippet_chars(profile),
    )
}

/// Every file's score for the question fits in a `usize`.
pub open spec fn scores_fit(question: Seq<char>, files: Seq<FixtureFile>) -> bool {
    forall|i: int| 0 <= i < files.len() ==> file_score(question, #[trigger] files[i]) <= usize::MAX
}

/// The file-by-file mode: the six files ranked best for the task's
/// question and the expected files they miss, each whole.
pub fn naive_file_by_file(task: &EfficiencyTask, files: &Vec<FixtureFile>) -> (r: ModeSelection)
    requires
        distinct_paths(files@),
        files.len() < usize::MAX - 1,
        scores_fit(task.question@, files@),
    ensures
        is_file_by_file(r, ranked_paths(task.question@, files@), strings_view(task.expected_files@), files@),
{
    let ranked = ranked_files(task.question.as_str(), files);
    file_by_file_selection(&ranked, &task.expected_files, files)
}

/// The file-by-file mode, or `None` when a file's score does not fit in a
/// `usize`.
pub fn checked_naive_file_by_file(task: &EfficiencyTask, files: &Vec<FixtureFile>) -> (r: Option<ModeSelection>)
    requires
        distinct_paths(files@),
        files.len() < usize::MAX - 1,
    ensures
        r is Some <==> scores_fit(task.question@, files@),
        r is Some ==> is_file_by_file(
            r->Some_0,
            ranked_paths(task.question@, files@),
            strings_view(task.expected_files@),
            files@,
        ),
{
    if checked_ranked_files(task.question.as_str(), files).is_some() {
        Some(naive_file_by_file(task, files))
    } else {
        None
    }
}

/// The search-only selection for a given ranking of the files: for each
/// of the profile's best ranked paths that is a file, a snippet of that
/// file for the question, in ranking order. It takes one tool call.
pub fn search_selection(ranked: &Vec<String>, question: &str, files: &Vec<FixtureFile>, profile: ContextProfile) -> (r:
    ModeSelection)
    requires
        distinct_paths(files@),
        snippets_found(
            first_ranked(strings_view(ranked@), profile_top_k(profile)),
            files@,
            question@,
            profile_snippet_chars(profile),
        ),
    ensures
        is_search_only(r, strings_view(ranked@), question@, files@, profile),
{
    let top = take_ranked(ranked, profile.top_k());
    let max = profile.max_snippet_chars();
    let ghost paths = vv(top@);
    let mut contexts: Vec<SelectedContext> = Vec::new();
    let mut j: usize = 0;
    assert(paths.take(0) =~= Seq::<Seq<char>>::empty());
    while j < top.len()
        invariant
            paths == vv(top@),
            max == profile_snippet_chars(profile),
            distinct_paths(files@),
            snippets_found(paths, files@, question@, max as nat),
            j <= top.len(),
            contexts_view(contexts@) == snippet_contexts(paths.take(j as int), files@, question@, max as nat),
        decreases top.len() - j,
    {
        assert(paths.take(j + 1).drop_last() =~= paths.take(j as int));
        assert(paths.take(j + 1).last() == paths[j as int]);
        match find_path(files, &top[j]) {
            Some(x) => {
                assert(match path_index(files@, paths[j as int]) {
                    Some(i) => snippet_start(files@[i].content@, question@, max as nat) is Some,
                    None => true,
                });
                let ghost before = contexts_view(contexts@);
                let text = best_snippet(files[x].content.as_str(), question, max);
                contexts.push(
                    SelectedContext {
                        path: string_from_chars(&top[j]),
                        text,
                        source_kind: files[x].source_kind,
                    },
                );
                assert(contexts_view(contexts@) =~= before.push(
                    (
                        paths[j as int],
                        snippet_from(
                            files@[x as int].content@,
                            snippet_start(files@[x as int].content@, question@, max as nat)->Some_0,
                            max as nat,
                        ),
                        files@[x as int].source_kind,
                    ),
                ));
            },
            None => {},
        }
        j += 1;
    }
    assert(paths.take(j as int) =~= paths);
    ModeSelection { mode: "search_code_only".to_owned(), profile: None, tool_calls: 1, contexts }
}

/// The search-only mode: a snippet of each of the profile's best ranked
/// files for the task's question.
pub fn search_code_only(task: &EfficiencyTask, files: &Vec<FixtureFile>, profile: ContextProfile) -> (r: ModeSelection)
    requires
        distinct_paths(files@),
        scores_fit(task.question@, files@),
        snippets_found(
            first_ranked(ranked_paths(task.question@, files@), profile_top_k(profile)),
            files@,
            task.question@,
            profile_snippet_chars(profile),
        ),
    ensures
        is_search_only(r, ranked_paths(task.question@, files@), task.question@, files@, profile),
{
    let ranked = ranked_files(task.question.as_str(), files);
    search_selection(&ranked, task.question.as_str(), files, profile)
}

/// The search-only mode, or `None` when a file's score does not fit in a
/// `usize` or a selected file has no snippet start (where slicing its
/// content would fail).
pub fn checked_search_code_only(task: &EfficiencyTask, files: &Vec<FixtureFile>, profile: ContextProfile) -> (r:
    Option<ModeSelection>)
    requires
        distinct_paths(files@),
    ensures
        r is Some <==> scores_fit(task.question@, files@) && snippets_found(
            first_ranked(ranked_paths(task.question@, files@), profile_top_k(profile)),
            files@,
            task.question@,
            profile_snippet_chars(profile),
        ),
        r is Some ==> is_search_only(
            r->Some_0,
            ranked_paths(task.question@, files@),
            task.question@,
            files@,
            profile,
        ),
{
    let question = task.question.as_str();
    let ranked = match checked_ranked_files(question, files) {
        Some(v) => v,
        None => {
            return None;
        },
    };
    let top = take_ranked(&ranked, profile.top_k());
    let max = profile.max_snippet_chars();
    let ghost paths = vv(top@);
    assert(paths == first_ranked(ranked_paths(task.question@, files@), profile_top_k(profile)));
    let mut j: usize = 0;
    while j < top.len()
        invariant
            paths == vv(top@),
            paths == first_ranked(ranked_paths(task.question@, files@), profile_top_k(profile)),
            question@ == task.question@,
            max == profile_snippet_chars(profile),
            distinct_paths(files@),
            j <= top.len(),
            forall|t: int|
                0 <= t < j ==> match path_index(files@, #[trigger] paths[t]) {
                    Some(i) => snippet_start(files@[i].content@, question@, max as nat) is Some,
                    None => true,
                },
        decreases top.len() - j,
    {
        match find_path(files, &top[j]) {
            Some(x) => {
                if checked_best_snippet(files[x].content.as_str(), question, max).is_none() {
                    assert(!snippets_found(paths, files@, question@, max as nat)) by {
                        if snippets_found(paths, files@, question@, max as nat) {
                            assert(match path_index(files@, paths[j as int]) {
                                Some(i) => snippet_start(files@[i].content@, question@, max as nat) is Some,
                                None => true,
                            });
                        }
                    }
                    return None;
                }
            },
            None => {},
        }
        j += 1;
    }
    Some(search_code_only(task, files, profile))
}

/// What is wrong with a task, if anything: a blank id or question, no
/// expected files, or an expected file missing from the fixture.
pub open spec fn task_problem(t: EfficiencyTask, present: Seq<bool>) -> Option<Seq<char>> {
    if !has_non_ws(t.id@) || !has_non_ws(t.question@) {
        Some("efficiency tasks need id and question"@)
    } else if t.expected_files.len() == 0 {
        Some("efficiency task has no expected files: "@ + t.id@)
    } else {
        match first_missing(present, 0) {
            Some(k) => Some("missing expected efficiency fixture target: "@ + t.expected_files@[k as int]@),
            None => None,
        }
    }
}

/// The problem of the first task that has one.
pub open spec fn first_task_problem(tasks: Seq<EfficiencyTask>, present: Seq<Seq<bool>>, i: int) -> Option<
    Seq<char>,
>
    decreases tasks.len() - i,
{
    if i < 0 || i >= tasks.len() {
        None
    } else {
        match task_problem(tasks[i], present[i]) {
            Some(p) => Some(p),
            None => first_task_problem(tasks, present, i + 1),
        }
    }
}

/// Checks the tasks of the efficiency benchmark against the fixture:
/// `present[i][j]` tells whether expected file `j` of task `i` is there.
/// The first problem found is the error.
pub fn validate_tasks(tasks: &Vec<EfficiencyTask>, present: &Vec<Vec<bool>>) -> (r: Result<(), String>)
    requires
        present.len() == tasks.len(),
        forall|i: int| 0 <= i < tasks.len() ==> (#[trigger] present@[i]).len() == tasks@[i].expected_files.len(),
    ensures
        match first_task_problem(tasks@, presence_view(present@), 0) {
            Some(p) => r is Err && r->Err_0@ == p,
            None => r is Ok,
        },
{
    let ghost pv = presence_view(present@);
    let mut i: usize = 0;
    while i < tasks.len()
        invariant
            pv == presence_view(present@),
            present.len() == tasks.len(),
            forall|m: int| 0 <= m < tasks.len() ==> (#[trigger] present@[m]).len() == tasks@[m].expected_files.len(),
            i <= tasks.len(),
            first_task_problem(tasks@, pv, 0) == first_task_problem(tasks@, pv, i as int),
        decreases tasks.len() - i,
    {
        let task = &tasks[i];
        assert(pv[i as int] == present@[i as int]@);
        let id = chars_of(task.id.as_str());
        let question = chars_of(task.question.as_str());
        if !has_non_ws_vec(&id) || !has_non_ws_vec(&question) {
            return Err("efficiency tasks need id and question".to_owned());
        }
        if task.expected_files.len() == 0 {
            let mut msg: Vec<char> = Vec::new();
            push_str(&mut msg, "efficiency task has no expected files: ");
            push_str(&mut msg, task.id.as_str());
            return Err(string_from_chars(&msg));
        }
        match first_missing_exec(&present[i]) {
            Some(k) => {
                let mut msg: Vec<char> = Vec::new();
                push_str(&mut msg, "missing expected efficiency fixture target: ");
                push_str(&mut msg, task.expected_files[k].as_str());
                return Err(string_from_chars(&msg));
            },
            None => {},
        }
        i += 1;
    }
    Ok(())
}

} // verus!
