//! The counts a benchmark records of one mode's selection for a task:
//! how much context it took and which of the task's expectations it met.
use vstd::prelude::*;

use crate::bench::modes::{contexts_view, ContextView, EfficiencyTask, ModeSelection};
use crate::bench::{estimate_tokens, to_lowercase_of, token_estimate, unicode_lowercase, SourceKind};
use crate::line_set::{insert_sorted, lemma_lt_irreflexive, strictly_sorted};
use crate::text::{
    chars_of, contains, contains_vec, ends_with, ends_with_vec, joined_with, push_str, string_from_chars,
    strings_view, utf8_len, utf8_len_vec, vv, Lines,
};

verus! {

broadcast use vstd::string::group_string_axioms;

/// How relevant a selection's first context is to the task.
#[derive(Debug, Clone, Copy, PartialEq, Eq, Structural)]
pub enum TopRelevance {
    /// The first context's path ends with an expected file.
    FirstExpected,
    /// Some expected file is matched, though not by the first context.
    ExpectedMatched,
    /// No expected file is matched.
    NoneMatched,
}

/// The counts recorded of one mode's selection for a task, beside those of
/// the file-by-file baseline.
pub struct WorkflowCounts {
    pub selected_context_chars: usize,
    pub estimated_tokens: usize,
    pub files_touched: usize,
    pub tool_calls: usize,
    pub matched_expected_files: usize,
    pub matched_expected_symbols: usize,
    pub matched_source_kinds: usize,
    pub matched_expected_facts: usize,
    pub matched_coverage_tags: usize,
    pub top_k_relevance: TopRelevance,
    pub baseline_context_chars: usize,
    pub baseline_tool_calls: usize,
}

/// The bytes of the contexts' texts.
pub open spec fn text_bytes(ctxs: Seq<ContextView>) -> nat
    decreases ctxs.len(),
{
    if ctxs.len() == 0 {
        0
    } else {
        text_bytes(ctxs.drop_last()) + utf8_len(ctxs.last().1)
    }
}

/// The contexts' paths.
pub open spec fn context_paths(ctxs: Seq<ContextView>) -> Lines {
    ctxs.map_values(|c: ContextView| c.0)
}

/// The contexts' texts.
pub open spec fn context_texts(ctxs: Seq<ContextView>) -> Lines {
    ctxs.map_values(|c: ContextView| c.1)
}

/// A context's path ends with `e` or its text holds it.
pub open spec fn context_matches(c: ContextView, e: Seq<char>) -> bool {
    ends_with(c.0, e) || contains(c.1, e)
}

/// An expected file is matched when a context's path ends with it or its
/// text holds it.
pub open spec fn file_matched(ctxs: Seq<ContextView>, e: Seq<char>) -> bool {
    exists|i: int| 0 <= i < ctxs.len() && context_matches(#[trigger] ctxs[i], e)
}

/// How many of the expected files are matched.
pub open spec fn files_matched(ctxs: Seq<ContextView>, expected: Lines) -> nat
    decreases expected.len(),
{
    if expected.len() == 0 {
        0
    } else {
        files_matched(ctxs, expected.drop_last()) + if file_matched(ctxs, expected.last()) {
            1nat
        } else {
            0nat
        }
    }
}

/// The contexts' texts joined by newlines and lowercased, where symbols,
/// facts and tags are looked for.
pub open spec fn haystack(ctxs: Seq<ContextView>) -> Seq<char> {
    unicode_lowercase(joined_with(context_texts(ctxs), "\n"@))
}

/// How many of the words the haystack holds, each lowercased.
pub open spec fn words_found(hay: Seq<char>, words: Lines) -> nat
    decreases words.len(),
{
    if words.len() == 0 {
        0
    } else {
        words_found(hay, words.drop_last()) + if contains(hay, unicode_lowercase(words.last())) {
            1nat
        } else {
            0nat
        }
    }
}

/// How many of the tags the haystack holds lowercased, or the mode's name
/// holds as they are.
pub open spec fn tags_found(hay: Seq<char>, mode: Seq<char>, tags: Lines) -> nat
    decreases tags.len(),
{
    if tags.len() == 0 {
        0
    } else {
        tags_found(hay, mode, tags.drop_last()) + if contains(hay, unicode_lowercase(tags.last())) || contains(
            mode,
            tags.last(),
        ) {
            1nat
        } else {
            0nat
        }
    }
}

/// A context of that kind was selected.
pub open spec fn kind_selected(ctxs: Seq<ContextView>, k: SourceKind) -> bool {
    exists|i: int| 0 <= i < ctxs.len() && (#[trigger] ctxs[i]).2 == k
}

/// How many of the expected kinds were selected.
pub open spec fn kinds_selected(ctxs: Seq<ContextView>, kinds: Seq<SourceKind>) -> nat
    decreases kinds.len(),
{
    if kinds.len() == 0 {
        0
    } else {
        kinds_selected(ctxs, kinds.drop_last()) + if kind_selected(ctxs, kinds.last()) {
            1nat
        } else {
            0nat
        }
    }
}

/// The relevance of the first context, given how many expected files were
/// matched.
pub open spec fn top_relevance(ctxs: Seq<ContextView>, expected: Lines, matched: nat) -> TopRelevance {
    if ctxs.len() > 0 && exists|j: int| 0 <= j < expected.len() && ends_with(ctxs[0].0, #[trigger] expected[j]) {
        TopRelevance::FirstExpected
    } else if matched > 0 {
        TopRelevance::ExpectedMatched
    } else {
        TopRelevance::NoneMatched
    }
}

/// The bytes of the selected texts.
fn count_text_bytes(ctxs: &Vec<crate::bench::modes::SelectedContext>) -> (r: usize)
    requires
        text_bytes(contexts_view(ctxs@)) <= usize::MAX,
    ensures
        r == text_bytes(contexts_view(ctxs@)),
{
    let ghost cv = contexts_view(ctxs@);
    let mut total: usize = 0;
    let mut i: usize = 0;
    while i < ctxs.len()
        invariant
            cv == contexts_view(ctxs@),
            text_bytes(cv) <= usize::MAX,
            i <= ctxs.len(),
            total == text_bytes(cv.take(i as int)),
            text_bytes(cv.take(i as int)) <= text_bytes(cv),
        decreases ctxs.len() - i,
    {
        assert(cv.take(i + 1).drop_last() =~= cv.take(i as int));
        proof {
            lemma_text_bytes_prefix(cv, i + 1);
        }
        let t = chars_of(ctxs[i].text.as_str());
        let n = utf8_len_vec(&t);
        total = total + n;
        i += 1;
    }
    assert(cv.take(i as int) =~= cv);
    total
}

/// The bytes of the first contexts are at most those of all of them.
proof fn lemma_text_bytes_prefix(ctxs: Seq<ContextView>, j: int)
    requires
        0 <= j <= ctxs.len(),
    ensures
        text_bytes(ctxs.take(j)) <= text_bytes(ctxs),
    decreases ctxs.len(),
{
    if j < ctxs.len() {
        lemma_text_bytes_prefix(ctxs.drop_last(), j);
        assert(ctxs.drop_last().take(j) =~= ctxs.take(j));
    } else {
        assert(ctxs.take(j) =~= ctxs);
    }
}

/// A sorted list without repeats has as many items as its set.
proof fn lemma_sorted_set_len(s: Lines)
    requires
        strictly_sorted(s),
    ensures
        s.to_set().len() == s.len(),
{
    assert forall|i: int, j: int| 0 <= i < s.len() && 0 <= j < s.len() && i != j implies s[i] != s[j] by {
        if i < j {
            assert(crate::line_set::seq_lt(s[i], s[j]));
        } else {
            assert(crate::line_set::seq_lt(s[j], s[i]));
        }
        lemma_lt_irreflexive(s[i]);
    }
    s.unique_seq_to_set();
}

/// How many distinct paths the contexts have.
fn count_paths(ctxs: &Vec<crate::bench::modes::SelectedContext>) -> (r: usize)
    ensures
        r == context_paths(contexts_view(ctxs@)).to_set().len(),
{
    let ghost ps = context_paths(contexts_view(ctxs@));
    let mut sorted: Vec<Vec<char>> = Vec::new();
    let mut i: usize = 0;
    assert(ps.take(0) =~= Seq::<Seq<char>>::empty());
    while i < ctxs.len()
        invariant
            ps == context_paths(contexts_view(ctxs@)),
            i <= ctxs.len(),
            strictly_sorted(vv(sorted@)),
            vv(sorted@).to_set() == ps.take(i as int).to_set(),
            sorted.len() <= i,
        decreases ctxs.len() - i,
    {
        proof {
            lemma_sorted_set_len(vv(sorted@));
            assert(ps.take(i + 1) =~= ps.take(i as int).push(ps[i as int]));
            ps.take(i as int).lemma_push_to_set_commute(ps[i as int]);
            ps.take(i + 1).lemma_cardinality_of_set();
        }
        insert_sorted(&mut sorted, chars_of(ctxs[i].path.as_str()));
        proof {
            lemma_sorted_set_len(vv(sorted@));
            ps.take(i + 1).lemma_cardinality_of_set();
        }
        i += 1;
    }
    assert(ps.take(i as int) =~= ps);
    proof {
        lemma_sorted_set_len(vv(sorted@));
    }
    sorted.len()
}

/// Whether some context's path ends with `e` or its text holds it.
fn file_matched_exec(ctxs: &Vec<crate::bench::modes::SelectedContext>, e: &Vec<char>) -> (r: bool)
    ensures
        r == file_matched(contexts_view(ctxs@), e@),
{
    let ghost cv = contexts_view(ctxs@);
    let mut i: usize = 0;
    while i < ctxs.len()
        invariant
            cv == contexts_view(ctxs@),
            i <= ctxs.len(),
            forall|k: int| 0 <= k < i ==> !context_matches(#[trigger] cv[k], e@),
        decreases ctxs.len() - i,
    {
        let p = chars_of(ctxs[i].path.as_str());
        let t = chars_of(ctxs[i].text.as_str());
        assert(p@ == cv[i as int].0 && t@ == cv[i as int].1);
        let hit = ends_with_vec(&p, e) || contains_vec(&t, e);
        if hit {
            assert(context_matches(cv[i as int], e@));
            return true;
        }
        assert(!context_matches(cv[i as int], e@));
        i += 1;
    }
    false
}

/// Whether some context has the kind.
fn kind_selected_exec(ctxs: &Vec<crate::bench::modes::SelectedContext>, k: SourceKind) -> (r: bool)
    ensures
        r == kind_selected(contexts_view(ctxs@), k),
{
    let ghost cv = contexts_view(ctxs@);
    let mut i: usize = 0;
    while i < ctxs.len()
        invariant
            cv == contexts_view(ctxs@),
            i <= ctxs.len(),
            forall|m: int| 0 <= m < i ==> (#[trigger] cv[m]).2 != k,
        decreases ctxs.len() - i,
    {
        if ctxs[i].source_kind == k {
            assert(cv[i as int].2 == k);
            return true;
        }
        i += 1;
    }
    false
}

/// The lowercased haystack of the contexts.
fn haystack_exec(ctxs: &Vec<crate::bench::modes::SelectedContext>) -> (r: Vec<char>)
    ensures
        r@ == haystack(contexts_view(ctxs@)),
{
    let ghost xs = context_texts(contexts_view(ctxs@));
    proof {
        reveal_strlit("\n");
    }
    let mut out: Vec<char> = Vec::new();
    let mut i: usize = 0;
    while i < ctxs.len()
        invariant
            xs == context_texts(contexts_view(ctxs@)),
            "\n"@ == seq!['\n'],
            i <= ctxs.len(),
            out@ == joined_with(xs.take(i as int), "\n"@),
        decreases ctxs.len() - i,
    {
        assert(xs.take(i + 1).drop_last() =~= xs.take(i as int));
        assert(xs[i as int] == ctxs@[i as int].text@);
        if i > 0 {
            out.push('\n');
        }
        push_str(&mut out, ctxs[i].text.as_str());
        i += 1;
        assert(out@ =~= joined_with(xs.take(i as int), "\n"@));
    }
    assert(xs.take(i as int) =~= xs);
    let joined = string_from_chars(&out);
    chars_of(to_lowercase_of(joined.as_str()).as_str())
}

/// The counts of a mode's selection for a task, beside the file-by-file
/// baseline: the bytes of the selected texts and their token estimate,
/// the distinct paths, the tool calls, how many expected files, symbols,
/// kinds, facts and tags were met, and how relevant the first context is.
pub fn workflow_counts(task: &EfficiencyTask, selection: &ModeSelection, naive: &ModeSelection) -> (r: WorkflowCounts)
    requires
        text_bytes(contexts_view(selection.contexts@)) <= usize::MAX,
        text_bytes(contexts_view(naive.contexts@)) <= usize::MAX,
    ensures
        ({
            let ctxs = contexts_view(selection.contexts@);
            let hay = haystack(ctxs);
            &&& r.selected_context_chars == text_bytes(ctxs)
            &&& r.estimated_tokens == token_estimate(text_bytes(ctxs))
            &&& r.files_touched == context_paths(ctxs).to_set().len()
            &&& r.tool_calls == selection.tool_calls
            &&& r.matched_expected_files == files_matched(ctxs, strings_view(task.expected_files@))
            &&& r.matched_expected_symbols == words_found(hay, strings_view(task.expected_symbols@))
            &&& r.matched_source_kinds == kinds_selected(ctxs, task.expected_source_kinds@)
            &&& r.matched_expected_facts == words_found(hay, strings_view(task.expected_facts@))
            &&& r.matched_coverage_tags == tags_found(
                hay,
                selection.mode@,
                strings_view(task.required_coverage_tags@),
            )
            &&& r.top_k_relevance == top_relevance(
                ctxs,
                strings_view(task.expected_files@),
                r.matched_expected_files as nat,
            )
            &&& r.baseline_context_chars == text_bytes(contexts_view(naive.contexts@))
            &&& r.baseline_tool_calls == naive.tool_calls
        }),
{
    let ctxs = &selection.contexts;
    let ghost cv = contexts_view(ctxs@);
    let selected_chars = count_text_bytes(ctxs);
    let naive_chars = count_text_bytes(&naive.contexts);
    let files_touched = count_paths(ctxs);
    // expected files
    let ghost ev = strings_view(task.expected_files@);
    let mut matched_files: usize = 0;
    let mut k: usize = 0;
    while k < task.expected_files.len()
        invariant
            ev == strings_view(task.expected_files@),
            cv == contexts_view(ctxs@),
            k <= task.expected_files.len(),
            matched_files <= k,
            matched_files == files_matched(cv, ev.take(k as int)),
        decreases task.expected_files.len() - k,
    {
        assert(ev.take(k + 1).drop_last() =~= ev.take(k as int));
        assert(ev.take(k + 1).last() == task.expected_files@[k as int]@);
        let e = chars_of(task.expected_files[k].as_str());
        if file_matched_exec(ctxs, &e) {
            matched_files = matched_files + 1;
        }
        k += 1;
    }
    assert(ev.take(k as int) =~= ev);
    let hay = haystack_exec(ctxs);
    let symbols = count_words(&hay, &task.expected_symbols);
    let facts = count_words(&hay, &task.expected_facts);
    let tags = count_tags(&hay, &selection.mode, &task.required_coverage_tags);
    // kinds
    let ghost kv = task.expected_source_kinds@;
    let mut kinds: usize = 0;
    let mut q: usize = 0;
    while q < task.expected_source_kinds.len()
        invariant
            kv == task.expected_source_kinds@,
            cv == contexts_view(ctxs@),
            q <= task.expected_source_kinds.len(),
            kinds <= q,
            kinds == kinds_selected(cv, kv.take(q as int)),
        decreases task.expected_source_kinds.len() - q,
    {
        assert(kv.take(q + 1).drop_last() =~= kv.take(q as int));
        if kind_selected_exec(ctxs, task.expected_source_kinds[q]) {
            kinds = kinds + 1;
        }
        q += 1;
    }
    assert(kv.take(q as int) =~= kv);
    // relevance of the first context
    let mut first_expected = false;
    if ctxs.len() > 0 {
        let p = chars_of(ctxs[0].path.as_str());
        let mut j: usize = 0;
        while j < task.expected_files.len()
            invariant
                ev == strings_view(task.expected_files@),
                ctxs.len() > 0,
                p@ == cv[0].0,
                cv == contexts_view(ctxs@),
                j <= task.expected_files.len(),
                first_expected <==> exists|t: int| 0 <= t < j && ends_with(cv[0].0, #[trigger] ev[t]),
            decreases task.expected_files.len() - j,
        {
            let e = chars_of(task.expected_files[j].as_str());
            assert(ev[j as int] == e@);
            if ends_with_vec(&p, &e) {
                first_expected = true;
            }
            j += 1;
        }
    }
    let relevance = if first_expected {
        TopRelevance::FirstExpected
    } else if matched_files > 0 {
        TopRelevance::ExpectedMatched
    } else {
        TopRelevance::NoneMatched
    };
    WorkflowCounts {
        selected_context_chars: selected_chars,
        estimated_tokens: estimate_tokens(selected_chars),
        files_touched,
        tool_calls: selection.tool_calls,
        matched_expected_files: matched_files,
        matched_expected_symbols: symbols,
        matched_source_kinds: kinds,
        matched_expected_facts: facts,
        matched_coverage_tags: tags,
        top_k_relevance: relevance,
        baseline_context_chars: naive_chars,
        baseline_tool_calls: naive.tool_calls,
    }
}

/// How many of the words the haystack holds, each lowercased.
fn count_words(hay: &Vec<char>, words: &Vec<String>) -> (r: usize)
    ensures
        r == words_found(hay@, strings_view(words@)),
{
    let ghost wv = strings_view(words@);
    let mut n: usize = 0;
    let mut i: usize = 0;
    while i < words.len()
        invariant
            wv == strings_view(words@),
            i <= words.len(),
            n <= i,
            n == words_found(hay@, wv.take(i as int)),
        decreases words.len() - i,
    {
        assert(wv.take(i + 1).drop_last() =~= wv.take(i as int));
        assert(wv.take(i + 1).last() == words@[i as int]@);
        let low = chars_of(to_lowercase_of(words[i].as_str()).as_str());
        if contains_vec(hay, &low) {
            n = n + 1;
        }
        i += 1;
    }
    assert(wv.take(i as int) =~= wv);
    n
}

/// How many of the tags the haystack holds lowercased, or the mode holds.
fn count_tags(hay: &Vec<char>, mode: &String, tags: &Vec<String>) -> (r: usize)
    ensures
        r == tags_found(hay@, mode@, strings_view(tags@)),
{
    let ghost tv = strings_view(tags@);
    let m = chars_of(mode.as_str());
    let mut n: usize = 0;
    let mut i: usize = 0;
    while i < tags.len()
        invariant
            tv == strings_view(tags@),
            m@ == mode@,
            i <= tags.len(),
            n <= i,
            n == tags_found(hay@, mode@, tv.take(i as int)),
        decreases tags.len() - i,
    {
        assert(tv.take(i + 1).drop_last() =~= tv.take(i as int));
        assert(tv.take(i + 1).last() == tags@[i as int]@);
        let low = chars_of(to_lowercase_of(tags[i].as_str()).as_str());
        let tag = chars_of(tags[i].as_str());
        if contains_vec(hay, &low) || contains_vec(&m, &tag) {
            n = n + 1;
        }
        i += 1;
    }
    assert(tv.take(i as int) =~= tv);
    n
}

} // verus!
