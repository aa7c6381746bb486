//! How a search-quality case is judged from the hits a search returned:
//! the rank of the first expected file, and whether the expected symbol
//! and kind were found.
use vstd::prelude::*;

use crate::bench::semantic::SearchHit;
use crate::bench::{expected_file_match, to_lowercase_of, unicode_lowercase, SourceKind};
use crate::text::{chars_of, contains, contains_str, contains_vec, ends_with, has_non_ws, has_non_ws_vec, push_str, string_from_chars, strings_view, Lines};

verus! {

broadcast use vstd::string::group_string_axioms;

/// A query of the search-quality benchmark and what it should find.
pub struct QualityCase {
    pub query: String,
    pub expected_files: Vec<String>,
    pub expected_symbol: Option<String>,
    pub expected_source_kind: Option<SourceKind>,
    pub language: Option<String>,
    pub framework: Option<String>,
    pub notes: String,
}

/// What one case found among the hits of a search.
pub struct CaseOutcome {
    /// The position, from one, of the first hit in an expected file.
    pub rank: Option<usize>,
    pub top_path: Option<String>,
    pub result_count: usize,
    /// The search warned: it fell back from its plan.
    pub fallback: bool,
    /// A warning says that no vector data was available.
    pub no_vector_fallback: bool,
    pub matched_expected_file: bool,
    pub matched_expected_symbol: bool,
    pub matched_source_kind: bool,
}

/// The path ends with one of the expected files.
pub open spec fn path_expected(path: Seq<char>, expected: Lines) -> bool {
    exists|i: int| 0 <= i < expected.len() && ends_with(path, #[trigger] expected[i])
}

/// The position of the first hit from `i` on whose path is expected.
pub open spec fn first_expected_from(hits: Seq<SearchHit>, expected: Lines, i: int) -> Option<nat>
    decreases hits.len() - i,
{
    if i < 0 || i >= hits.len() {
        None
    } else if path_expected(hits[i].path@, expected) {
        Some(i as nat)
    } else {
        first_expected_from(hits, expected, i + 1)
    }
}

/// The rank, from one, of the first hit whose path is expected.
pub open spec fn expected_rank(hits: Seq<SearchHit>, expected: Lines) -> Option<nat> {
    match first_expected_from(hits, expected, 0) {
        Some(i) => Some(i + 1),
        None => None,
    }
}

/// A hit shows the symbol: a term it matched occurs in the lowercased
/// symbol, or its lowercased preview holds the lowercased symbol.
pub open spec fn hit_shows_symbol(h: SearchHit, symbol: Seq<char>) -> bool {
    (match h.matched_terms {
        Some(ts) => exists|j: int|
            0 <= j < ts.len() && contains(unicode_lowercase(symbol), (#[trigger] ts@[j])@),
        None => false,
    }) || contains(unicode_lowercase(h.text_preview@), unicode_lowercase(symbol))
}

/// Some hit shows the expected symbol; never when none is expected.
pub open spec fn symbol_shown(hits: Seq<SearchHit>, symbol: Option<String>) -> bool {
    match symbol {
        Some(s) => exists|i: int| 0 <= i < hits.len() && hit_shows_symbol(#[trigger] hits[i], s@),
        None => false,
    }
}

/// The top hit has the expected kind.
pub open spec fn top_kind_matches(hits: Seq<SearchHit>, kind: Option<SourceKind>) -> bool {
    hits.len() > 0 && kind is Some && hits[0].source_kind == kind->Some_0
}

/// Some warning says that no vector data was available.
pub open spec fn mentions_no_vector(warnings: Lines) -> bool {
    exists|i: int| 0 <= i < warnings.len() && contains(#[trigger] warnings[i], "No vector data available"@)
}

/// Whether a hit shows the symbol, lowercased as `low`.
fn hit_shows_symbol_exec(h: &SearchHit, symbol: &String, low: &Vec<char>) -> (r: bool)
    requires
        low@ == unicode_lowercase(symbol@),
    ensures
        r == hit_shows_symbol(*h, symbol@),
{
    match &h.matched_terms {
        Some(ts) => {
            let mut j: usize = 0;
            while j < ts.len()
                invariant
                    j <= ts.len(),
                    h.matched_terms is Some && h.matched_terms->Some_0 == *ts,
                    low@ == unicode_lowercase(symbol@),
                    forall|m: int| 0 <= m < j ==> !contains(low@, (#[trigger] ts@[m])@),
                decreases ts.len() - j,
            {
                if contains_str(low, ts[j].as_str()) {
                    let ghost hts = h.matched_terms->Some_0;
                    assert(0 <= j < hts.len() && contains(unicode_lowercase(symbol@), (hts@[j as int])@));
                    return true;
                }
                j += 1;
            }
        },
        None => {},
    }
    let preview = chars_of(to_lowercase_of(h.text_preview.as_str()).as_str());
    contains_vec(&preview, low)
}

/// The position of the first hit whose path is expected.
fn first_expected_index(hits: &Vec<SearchHit>, expected_files: &Vec<String>) -> (r: Option<usize>)
    ensures
        match first_expected_from(hits@, strings_view(expected_files@), 0) {
            Some(k) => r is Some && r->Some_0 == k && k < hits.len(),
            None => r is None,
        },
{
    let ghost ev = strings_view(expected_files@);
    let mut i: usize = 0;
    while i < hits.len()
        invariant
            ev == strings_view(expected_files@),
            i <= hits.len(),
            first_expected_from(hits@, ev, 0) == first_expected_from(hits@, ev, i as int),
        decreases hits.len() - i,
    {
        let hit = expected_file_match(hits[i].path.as_str(), expected_files);
        assert(hit == path_expected(hits@[i as int].path@, ev)) by {
            if hit {
                let m = choose|m: int|
                    0 <= m < expected_files@.len() && ends_with(
                        hits@[i as int].path@,
                        (#[trigger] expected_files@[m])@,
                    );
                assert(ev[m] == expected_files@[m]@);
            }
            if path_expected(hits@[i as int].path@, ev) {
                let m = choose|m: int| 0 <= m < ev.len() && ends_with(hits@[i as int].path@, #[trigger] ev[m]);
                assert(ev[m] == expected_files@[m]@);
            }
        }
        if hit {
            return Some(i);
        }
        i += 1;
    }
    None
}

/// Judges a case by the hits of its search and the search's warnings: the
/// rank of the first hit in an expected file, the top path, how many hits
/// there were, whether the search warned and whether a warning says that
/// no vector data was available, whether a hit shows the expected symbol,
/// and whether the top hit has the expected kind.
pub fn evaluate_case(case: &QualityCase, hits: &Vec<SearchHit>, warnings: &Vec<String>) -> (r: CaseOutcome)
    ensures
        match expected_rank(hits@, strings_view(case.expected_files@)) {
            Some(k) => r.rank is Some && r.rank->Some_0 == k,
            None => r.rank is None,
        },
        r.matched_expected_file == (r.rank is Some),
        match r.top_path {
            Some(p) => hits.len() > 0 && p@ == hits@[0].path@,
            None => hits.len() == 0,
        },
        r.result_count == hits.len(),
        r.fallback == (warnings.len() > 0),
        r.no_vector_fallback == mentions_no_vector(strings_view(warnings@)),
        r.matched_expected_symbol == symbol_shown(hits@, case.expected_symbol),
        r.matched_source_kind == top_kind_matches(hits@, case.expected_source_kind),
{
    let rank: Option<usize> = match first_expected_index(hits, &case.expected_files) {
        Some(i) => Some(i + 1),
        None => None,
    };
    let top_path = if hits.len() > 0 {
        Some(hits[0].path.clone())
    } else {
        None
    };
    let ghost wv = strings_view(warnings@);
    let mut no_vector = false;
    let mut w: usize = 0;
    while w < warnings.len()
        invariant
            wv == strings_view(warnings@),
            w <= warnings.len(),
            no_vector <==> exists|m: int| 0 <= m < w && contains(#[trigger] wv[m], "No vector data available"@),
        decreases warnings.len() - w,
    {
        let text = chars_of(warnings[w].as_str());
        assert(wv[w as int] == text@);
        if contains_str(&text, "No vector data available") {
            no_vector = true;
        }
        w += 1;
    }
    let symbol_match = match &case.expected_symbol {
        Some(sym) => {
            let low = chars_of(to_lowercase_of(sym.as_str()).as_str());
            let mut found = false;
            let mut k: usize = 0;
            while k < hits.len()
                invariant
                    k <= hits.len(),
                    case.expected_symbol == Some(*sym),
                    low@ == unicode_lowercase(sym@),
                    found <==> exists|m: int| 0 <= m < k && hit_shows_symbol(#[trigger] hits@[m], sym@),
                decreases hits.len() - k,
            {
                if hit_shows_symbol_exec(&hits[k], sym, &low) {
                    found = true;
                }
                k += 1;
            }
            found
        },
        None => false,
    };
    let kind_match = match case.expected_source_kind {
        Some(kind) => hits.len() > 0 && hits[0].source_kind == kind,
        None => false,
    };
    CaseOutcome {
        rank,
        top_path,
        result_count: hits.len(),
        fallback: warnings.len() > 0,
        no_vector_fallback: no_vector,
        matched_expected_file: rank.is_some(),
        matched_expected_symbol: symbol_match,
        matched_source_kind: kind_match,
    }
}

/// How many outcomes found an expected file within the first `k` hits.
pub open spec fn hits_within_spec(ranks: Seq<Option<usize>>, k: nat) -> nat
    decreases ranks.len(),
{
    if ranks.len() == 0 {
        0
    } else {
        hits_within_spec(ranks.drop_last(), k) + match ranks.last() {
            Some(r) => if r <= k {
                1nat
            } else {
                0nat
            },
            None => 0nat,
        }
    }
}

/// The ranks of the outcomes.
pub open spec fn outcome_ranks(v: Seq<CaseOutcome>) -> Seq<Option<usize>> {
    v.map_values(|o: CaseOutcome| o.rank)
}

/// How many outcomes found an expected file within the first `k` hits.
pub fn hits_within(outcomes: &Vec<CaseOutcome>, k: usize) -> (r: usize)
    ensures
        r == hits_within_spec(outcome_ranks(outcomes@), k as nat),
{
    let ghost rv = outcome_ranks(outcomes@);
    let mut n: usize = 0;
    let mut i: usize = 0;
    while i < outcomes.len()
        invariant
            rv == outcome_ranks(outcomes@),
            i <= outcomes.len(),
            n <= i,
            n == hits_within_spec(rv.take(i as int), k as nat),
        decreases outcomes.len() - i,
    {
        assert(rv.take(i + 1).drop_last() =~= rv.take(i as int));
        assert(rv.take(i + 1).last() == outcomes@[i as int].rank);
        match outcomes[i].rank {
            Some(r) => {
                if r <= k {
                    n = n + 1;
                }
            },
            None => {},
        }
        i += 1;
    }
    assert(rv.take(i as int) =~= rv);
    n
}

/// The first of the expected files that is missing, given for each
/// whether it is there.
pub open spec fn first_missing(present: Seq<bool>, i: int) -> Option<nat>
    decreases present.len() - i,
{
    if i < 0 || i >= present.len() {
        None
    } else if !present[i] {
        Some(i as nat)
    } else {
        first_missing(present, i + 1)
    }
}

/// What is wrong with a case, if anything: an empty query, no expected
/// files, or an expected file that is missing from the fixture.
pub open spec fn case_problem(c: QualityCase, present: Seq<bool>) -> Option<Seq<char>> {
    if !has_non_ws(c.query@) {
        Some("quality query must not be empty"@)
    } else if c.expected_files.len() == 0 {
        Some("quality query has no expected files: "@ + c.query@)
    } else {
        match first_missing(present, 0) {
            Some(k) => Some("missing expected quality fixture target: "@ + c.expected_files@[k as int]@),
            None => None,
        }
    }
}

/// The problem of the first case that has one.
pub open spec fn first_case_problem(cases: Seq<QualityCase>, present: Seq<Seq<bool>>, i: int) -> Option<Seq<char>>
    decreases cases.len() - i,
{
    if i < 0 || i >= cases.len() {
        None
    } else {
        match case_problem(cases[i], present[i]) {
            Some(p) => Some(p),
            None => first_case_problem(cases, present, i + 1),
        }
    }
}

/// The presence flags of the expected files.
pub open spec fn presence_view(v: Seq<Vec<bool>>) -> Seq<Seq<bool>> {
    v.map_values(|x: Vec<bool>| x@)
}

/// The first expected file marked missing.
pub(crate) fn first_missing_exec(present: &Vec<bool>) -> (r: Option<usize>)
    ensures
        match first_missing(present@, 0) {
            Some(k) => r is Some && r->Some_0 == k,
            None => r is None,
        },
        r is Some ==> r->Some_0 < present.len(),
{
    let mut i: usize = 0;
    while i < present.len()
        invariant
            i <= present.len(),
            first_missing(present@, 0) == first_missing(present@, i as int),
        decreases present.len() - i,
    {
        if !present[i] {
            return Some(i);
        }
        i += 1;
    }
    None
}

/// Checks the cases of the search-quality benchmark against the fixture:
/// `present[i][j]` tells whether expected file `j` of case `i` is there.
/// The first problem found is the error.
pub fn validate_cases(cases: &Vec<QualityCase>, present: &Vec<Vec<bool>>) -> (r: Result<(), String>)
    requires
        present.len() == cases.len(),
        forall|i: int| 0 <= i < cases.len() ==> (#[trigger] present@[i]).len() == cases@[i].expected_files.len(),
    ensures
        match first_case_problem(cases@, presence_view(present@), 0) {
            Some(p) => r is Err && r->Err_0@ == p,
            None => r is Ok,
        },
{
    let ghost pv = presence_view(present@);
    let mut i: usize = 0;
    while i < cases.len()
        invariant
            pv == presence_view(present@),
            present.len() == cases.len(),
            forall|m: int| 0 <= m < cases.len() ==> (#[trigger] present@[m]).len() == cases@[m].expected_files.len(),
            i <= cases.len(),
            first_case_problem(cases@, pv, 0) == first_case_problem(cases@, pv, i as int),
        decreases cases.len() - i,
    {
        let case = &cases[i];
        assert(pv[i as int] == present@[i as int]@);
        let query = chars_of(case.query.as_str());
        if !has_non_ws_vec(&query) {
            return Err("quality query must not be empty".to_owned());
        }
        if case.expected_files.len() == 0 {
            let mut msg: Vec<char> = Vec::new();
            push_str(&mut msg, "quality query has no expected files: ");
            push_str(&mut msg, case.query.as_str());
            return Err(string_from_chars(&msg));
        }
        match first_missing_exec(&present[i]) {
            Some(k) => {
                let mut msg: Vec<char> = Vec::new();
                push_str(&mut msg, "missing expected quality fixture target: ");
                push_str(&mut msg, case.expected_files[k].as_str());
                return Err(string_from_chars(&msg));
            },
            None => {},
        }
        i += 1;
    }
    Ok(())
}

} // verus!
