//! The plain-text ranking of fixture files for a question, which the
//! benchmark's file-by-file and search-only modes read their context from.
use vstd::prelude::*;

use crate::bench::{find_from, opt_text, query_terms, terms, to_lowercase_of, unicode_lowercase, SourceKind};
use crate::line_set::{lemma_lt_asymmetric, lemma_lt_irreflexive, lemma_lt_total, lemma_lt_transitive, seq_lt};
use crate::text::{chars_of, contains, contains_vec, occurs_at, occurs_at_vec, string_from_chars, strings_view, vv, Lines};

verus! {

broadcast use vstd::seq_lib::group_to_multiset_ensures;

/// A file of a benchmark fixture under its path relative to the fixture.
pub struct FixtureFile {
    pub path: String,
    pub content: String,
    pub source_kind: SourceKind,
    pub language: Option<String>,
    pub framework: Option<String>,
}

/// A file's score and path, the key a ranking orders by.
pub type RankKey = (nat, Seq<char>);

/// A place found from `i` on lies at or after `i`, and the pattern occurs
/// there.
pub proof fn lemma_find_from_found(s: Seq<char>, p: Seq<char>, i: int)
    ensures
        find_from(s, p, i) is Some ==> i <= find_from(s, p, i)->Some_0 && occurs_at(
            s,
            p,
            find_from(s, p, i)->Some_0,
        ),
    decreases s.len() + 1 - i,
{
    if 0 <= i <= s.len() && !occurs_at(s, p, i) {
        lemma_find_from_found(s, p, i + 1);
    }
}

/// How many disjoint times a non-empty `p` occurs in `s` from position `i`
/// on, each occurrence taken leftmost first, as `str::matches` hands them
/// out. An empty pattern counts nothing here; no query term is empty.
pub open spec fn matches_from(s: Seq<char>, p: Seq<char>, i: int) -> nat
    decreases s.len() + 1 - i,
{
    if p.len() == 0 {
        0
    } else {
        match find_from(s, p, i) {
            None => 0,
            Some(j) => {
                proof {
                    lemma_find_from_found(s, p, i);
                }
                1 + matches_from(s, p, j + p.len())
            },
        }
    }
}

/// The number of disjoint matches of `p` in `s`.
pub open spec fn match_count(s: Seq<char>, p: Seq<char>) -> nat {
    matches_from(s, p, 0)
}

/// Whether an optional text holds `t`.
pub open spec fn opt_contains(o: Option<Seq<char>>, t: Seq<char>) -> bool {
    match o {
        Some(x) => contains(x, t),
        None => false,
    }
}

/// The points one term earns a file: three when the lowercased path holds
/// it, one for each disjoint match in the lowercased text, one when the
/// language holds it and two when the framework does.
pub open spec fn term_points(
    path_low: Seq<char>,
    text_low: Seq<char>,
    language: Option<Seq<char>>,
    framework: Option<Seq<char>>,
    t: Seq<char>,
) -> nat {
    (if contains(path_low, t) {
        3nat
    } else {
        0nat
    }) + match_count(text_low, t) + (if opt_contains(language, t) {
        1nat
    } else {
        0nat
    }) + (if opt_contains(framework, t) {
        2nat
    } else {
        0nat
    })
}

/// The points all the terms earn a file.
pub open spec fn points(
    terms: Lines,
    path_low: Seq<char>,
    text_low: Seq<char>,
    language: Option<Seq<char>>,
    framework: Option<Seq<char>>,
) -> nat
    decreases terms.len(),
{
    if terms.len() == 0 {
        0
    } else {
        points(terms.drop_last(), path_low, text_low, language, framework) + term_points(
            path_low,
            text_low,
            language,
            framework,
            terms.last(),
        )
    }
}

/// A file's score for a query: the points its terms earn the file, with
/// path and content lowercased as `str::to_lowercase` does.
pub open spec fn file_score(query: Seq<char>, f: FixtureFile) -> nat {
    points(
        query_terms(query),
        unicode_lowercase(f.path@),
        unicode_lowercase(f.content@),
        opt_text(f.language),
        opt_text(f.framework),
    )
}

/// `a` is ranked before `b`: a higher score, or the same score and a
/// smaller path.
pub open spec fn ranks_before(a: RankKey, b: RankKey) -> bool {
    a.0 > b.0 || (a.0 == b.0 && seq_lt(a.1, b.1))
}

/// No key is ranked before one that comes earlier.
pub open spec fn rank_sorted(s: Seq<RankKey>) -> bool {
    forall|i: int, j: int| 0 <= i < j < s.len() ==> !ranks_before(#[trigger] s[j], #[trigger] s[i])
}

/// The keys of the files for a query, in the order of the files.
pub open spec fn scored(query: Seq<char>, files: Seq<FixtureFile>) -> Seq<RankKey> {
    files.map_values(|f: FixtureFile| (file_score(query, f), f.path@))
}

/// The keys in ranking order.
pub open spec fn ranking(keys: Seq<RankKey>) -> Seq<RankKey> {
    choose|s: Seq<RankKey>| rank_sorted(s) && s.to_multiset() == keys.to_multiset()
}

/// The paths of the files, best ranked first.
pub open spec fn ranked_paths(query: Seq<char>, files: Seq<FixtureFile>) -> Lines {
    ranking(scored(query, files)).map_values(|k: RankKey| k.1)
}

proof fn lemma_before_irreflexive(a: RankKey)
    ensures
        !ranks_before(a, a),
{
    lemma_lt_irreflexive(a.1);
}

proof fn lemma_before_asymmetric(a: RankKey, b: RankKey)
    requires
        ranks_before(a, b),
    ensures
        !ranks_before(b, a),
{
    if a.0 == b.0 {
        lemma_lt_asymmetric(a.1, b.1);
    }
}

proof fn lemma_before_transitive(a: RankKey, b: RankKey, c: RankKey)
    requires
        ranks_before(a, b),
        ranks_before(b, c),
    ensures
        ranks_before(a, c),
{
    if a.0 == b.0 && b.0 == c.0 {
        lemma_lt_transitive(a.1, b.1, c.1);
    }
}

proof fn lemma_before_total(a: RankKey, b: RankKey)
    requires
        a != b,
    ensures
        ranks_before(a, b) || ranks_before(b, a),
{
    if a.0 == b.0 {
        if a.1 == b.1 {
            assert(a == b);
        } else {
            lemma_lt_total(a.1, b.1);
        }
    }
}

/// Two orderings of the same keys by rank are the same sequence: the
/// ranking of a set of files is determined by their keys.
pub proof fn lemma_ranking_unique(a: Seq<RankKey>, b: Seq<RankKey>)
    requires
        rank_sorted(a),
        rank_sorted(b),
        a.to_multiset() == b.to_multiset(),
    ensures
        a == b,
    decreases a.len(),
{
    assert(a.len() == a.to_multiset().len());
    assert(b.len() == b.to_multiset().len());
    if a.len() == 0 {
        assert(a =~= b);
    } else {
        assert(a.to_multiset().count(a[0]) > 0) by {
            assert(a.contains(a[0]));
        }
        assert(b.to_multiset().count(b[0]) > 0) by {
            assert(b.contains(b[0]));
        }
        assert(b.contains(a[0]));
        assert(a.contains(b[0]));
        let j = choose|j: int| 0 <= j < b.len() && b[j] == a[0];
        let k = choose|k: int| 0 <= k < a.len() && a[k] == b[0];
        if a[0] != b[0] {
            lemma_before_total(a[0], b[0]);
            if ranks_before(a[0], b[0]) {
                assert(j > 0);
                assert(!ranks_before(b[j], b[0]));
            } else {
                assert(k > 0);
                assert(!ranks_before(a[k], a[0]));
            }
        }
        let ar = a.remove(0);
        let br = b.remove(0);
        assert(ar.to_multiset() == a.to_multiset().remove(a[0]));
        assert(br.to_multiset() == b.to_multiset().remove(b[0]));
        assert(rank_sorted(ar)) by {
            assert forall|i: int, m: int| 0 <= i < m < ar.len() implies !ranks_before(
                #[trigger] ar[m],
                #[trigger] ar[i],
            ) by {
                assert(ar[m] == a[m + 1] && ar[i] == a[i + 1]);
            }
        }
        assert(rank_sorted(br)) by {
            assert forall|i: int, m: int| 0 <= i < m < br.len() implies !ranks_before(
                #[trigger] br[m],
                #[trigger] br[i],
            ) by {
                assert(br[m] == b[m + 1] && br[i] == b[i + 1]);
            }
        }
        lemma_ranking_unique(ar, br);
        assert(a =~= seq![a[0]] + ar);
        assert(b =~= seq![b[0]] + br);
    }
}

/// A rank-sorted sequence of the keys is their ranking.
pub proof fn lemma_ranking_is(s: Seq<RankKey>, keys: Seq<RankKey>)
    requires
        rank_sorted(s),
        s.to_multiset() == keys.to_multiset(),
    ensures
        ranking(keys) == s,
{
    let t = ranking(keys);
    assert(rank_sorted(t) && t.to_multiset() == keys.to_multiset());
    lemma_ranking_unique(t, s);
}

/// Inserts a key into a ranked sequence before the first key it ranks
/// before.
pub open spec fn rank_insert(s: Seq<RankKey>, x: RankKey) -> Seq<RankKey>
    decreases s.len(),
{
    if s.len() == 0 {
        seq![x]
    } else if ranks_before(x, s[0]) {
        seq![x] + s
    } else {
        seq![s[0]] + rank_insert(s.drop_first(), x)
    }
}

proof fn lemma_rank_insert(s: Seq<RankKey>, x: RankKey)
    requires
        rank_sorted(s),
    ensures
        rank_sorted(rank_insert(s, x)),
        rank_insert(s, x).to_multiset() == s.to_multiset().insert(x),
    decreases s.len(),
{
    let r = rank_insert(s, x);
    if s.len() == 0 {
        assert(r =~= Seq::<RankKey>::empty().push(x));
    } else if ranks_before(x, s[0]) {
        assert(r =~= s.insert(0, x));
        assert forall|i: int, j: int| 0 <= i < j < r.len() implies !ranks_before(#[trigger] r[j], #[trigger] r[i]) by {
            if i == 0 {
                assert(r[j] == s[j - 1]);
                if ranks_before(s[j - 1], x) {
                    if j - 1 > 0 {
                        assert(!ranks_before(s[j - 1], s[0]));
                    }
                    lemma_before_transitive(s[j - 1], x, s[0]);
                    lemma_before_irreflexive(s[0]);
                }
            } else {
                assert(r[i] == s[i - 1] && r[j] == s[j - 1]);
            }
        }
    } else {
        let t = s.drop_first();
        assert(rank_sorted(t)) by {
            assert forall|i: int, j: int| 0 <= i < j < t.len() implies !ranks_before(
                #[trigger] t[j],
                #[trigger] t[i],
            ) by {
                assert(t[i] == s[i + 1] && t[j] == s[j + 1]);
            }
        }
        lemma_rank_insert(t, x);
        let rt = rank_insert(t, x);
        assert(r =~= seq![s[0]] + rt);
        assert(r.to_multiset() == s.to_multiset().insert(x)) by {
            assert(seq![s[0]] + rt =~= rt.insert(0, s[0]));
            assert(s =~= t.insert(0, s[0]));
        }
        assert forall|i: int, j: int| 0 <= i < j < r.len() implies !ranks_before(#[trigger] r[j], #[trigger] r[i]) by {
            if i == 0 {
                let y = r[j];
                assert(y == rt[j - 1]);
                assert(rt.contains(y));
                assert(rt.to_multiset().count(y) > 0);
                if y != x {
                    assert(t.to_multiset().count(y) > 0);
                    assert(t.contains(y));
                    let k = choose|k: int| 0 <= k < t.len() && t[k] == y;
                    assert(s[k + 1] == y);
                }
            } else {
                assert(r[i] == rt[i - 1] && r[j] == rt[j - 1]);
            }
        }
    }
}

/// Every sequence of keys has a ranking: the same keys, none ranked
/// before one that comes earlier.
pub proof fn lemma_ranking_exists(keys: Seq<RankKey>)
    ensures
        rank_sorted(ranking(keys)),
        ranking(keys).to_multiset() == keys.to_multiset(),
    decreases keys.len(),
{
    if keys.len() == 0 {
        assert(rank_sorted(Seq::<RankKey>::empty()));
        assert(keys =~= Seq::<RankKey>::empty());
        lemma_ranking_is(Seq::<RankKey>::empty(), keys);
    } else {
        lemma_ranking_exists(keys.drop_last());
        let s = rank_insert(ranking(keys.drop_last()), keys.last());
        lemma_rank_insert(ranking(keys.drop_last()), keys.last());
        assert(keys =~= keys.drop_last().push(keys.last()));
        lemma_ranking_is(s, keys);
    }
}

/// Some file has path `p`.
pub open spec fn is_file_path(files: Seq<FixtureFile>, p: Seq<char>) -> bool {
    exists|i: int| 0 <= i < files.len() && files[i].path@ == p
}

/// The ranking lists every file once: it has as many paths as there are
/// files, each file's path is among them, and each of them is a file's.
pub proof fn lemma_ranking_lists_each_file(query: Seq<char>, files: Seq<FixtureFile>)
    ensures
        ranked_paths(query, files).len() == files.len(),
        forall|i: int| 0 <= i < files.len() ==> ranked_paths(query, files).contains(#[trigger] files[i].path@),
        forall|j: int| 0 <= j < files.len() ==> is_file_path(files, #[trigger] ranked_paths(query, files)[j]),
{
    let keys = scored(query, files);
    lemma_ranking_exists(keys);
    let order = ranking(keys);
    let paths = ranked_paths(query, files);
    assert(order.len() == order.to_multiset().len());
    assert(keys.len() == keys.to_multiset().len());
    assert forall|i: int| 0 <= i < files.len() implies paths.contains(#[trigger] files[i].path@) by {
        assert(keys.contains(keys[i]));
        assert(keys.to_multiset().count(keys[i]) > 0);
        assert(order.contains(keys[i]));
        let k = choose|k: int| 0 <= k < order.len() && order[k] == keys[i];
        assert(paths[k] == files[i].path@);
    }
    assert forall|j: int| 0 <= j < files.len() implies is_file_path(files, #[trigger] paths[j]) by {
        assert(order.contains(order[j]));
        assert(order.to_multiset().count(order[j]) > 0);
        assert(keys.contains(order[j]));
        let i = choose|i: int| 0 <= i < keys.len() && keys[i] == order[j];
        assert(files[i].path@ == paths[j]);
    }
}

/// The keys of ranked items: the score and the path.
pub open spec fn keys_of(v: Seq<(Vec<char>, usize)>) -> Seq<RankKey> {
    v.map_values(|x: (Vec<char>, usize)| (x.1 as nat, x.0@))
}

/// The points of the first terms are at most those of all of them.
proof fn lemma_points_prefix(
    ts: Lines,
    j: int,
    path_low: Seq<char>,
    text_low: Seq<char>,
    language: Option<Seq<char>>,
    framework: Option<Seq<char>>,
)
    requires
        0 <= j <= ts.len(),
    ensures
        points(ts.take(j), path_low, text_low, language, framework) <= points(
            ts,
            path_low,
            text_low,
            language,
            framework,
        ),
    decreases ts.len(),
{
    if j < ts.len() {
        lemma_points_prefix(ts.drop_last(), j, path_low, text_low, language, framework);
        assert(ts.drop_last().take(j) =~= ts.take(j));
    } else {
        assert(ts.take(j) =~= ts);
    }
}

/// The first place at or after `start` where `p` occurs in `s`.
fn find_chars_from(s: &Vec<char>, p: &Vec<char>, start: usize) -> (r: Option<usize>)
    requires
        start <= s.len(),
    ensures
        match find_from(s@, p@, start as int) {
            Some(j) => r is Some && r->Some_0 == j,
            None => r is None,
        },
{
    let mut i: usize = start;
    while i < s.len()
        invariant
            start <= i <= s.len(),
            find_from(s@, p@, start as int) == find_from(s@, p@, i as int),
        decreases s.len() - i,
    {
        if occurs_at_vec(s, p, i) {
            return Some(i);
        }
        i += 1;
    }
    if occurs_at_vec(s, p, i) {
        return Some(i);
    }
    assert(find_from(s@, p@, i + 1) == None::<int>);
    None
}

/// How many disjoint times `p` occurs in `s` (`str::matches(..).count()`).
fn count_matches(s: &Vec<char>, p: &Vec<char>) -> (r: usize)
    ensures
        r == match_count(s@, p@),
{
    if p.len() == 0 {
        return 0;
    }
    let mut i: usize = 0;
    let mut count: usize = 0;
    loop
        invariant
            p.len() > 0,
            i <= s.len(),
            count <= i,
            count + matches_from(s@, p@, i as int) == match_count(s@, p@),
        decreases s.len() - i,
    {
        match find_chars_from(s, p, i) {
            None => {
                return count;
            },
            Some(j) => {
                proof {
                    lemma_find_from_found(s@, p@, i as int);
                }
                count = count + 1;
                i = j + p.len();
            },
        }
    }
}

/// Whether an optional text holds `t`.
fn opt_contains_exec(o: &Option<String>, t: &Vec<char>) -> (r: bool)
    ensures
        r == opt_contains(opt_text(*o), t@),
{
    match o {
        Some(x) => contains_vec(&chars_of(x.as_str()), t),
        None => false,
    }
}

/// The score the terms give a file, or `None` when it exceeds `usize`.
fn score_file(ts: &Vec<Vec<char>>, f: &FixtureFile, path_low: &Vec<char>, text_low: &Vec<char>) -> (r:
    Option<usize>)
    ensures
        ({
            let total = points(vv(ts@), path_low@, text_low@, opt_text(f.language), opt_text(f.framework));
            match r {
                Some(v) => v == total,
                None => total > usize::MAX,
            }
        }),
{
    let ghost all = vv(ts@);
    let ghost lang = opt_text(f.language);
    let ghost fw = opt_text(f.framework);
    let mut score: u128 = 0;
    let mut j: usize = 0;
    assert(all.take(0) =~= Seq::<Seq<char>>::empty());
    while j < ts.len()
        invariant
            all == vv(ts@),
            lang == opt_text(f.language),
            fw == opt_text(f.framework),
            j <= ts.len(),
            score <= usize::MAX,
            score == points(all.take(j as int), path_low@, text_low@, lang, fw),
        decreases ts.len() - j,
    {
        let t = &ts[j];
        assert(all.take(j + 1).drop_last() =~= all.take(j as int));
        assert(all.take(j + 1).last() == t@);
        let mut gain: u128 = count_matches(text_low, t) as u128;
        if contains_vec(path_low, t) {
            gain = gain + 3;
        }
        if opt_contains_exec(&f.language, t) {
            gain = gain + 1;
        }
        if opt_contains_exec(&f.framework, t) {
            gain = gain + 2;
        }
        score = score + gain;
        j += 1;
        if score > usize::MAX as u128 {
            proof {
                lemma_points_prefix(all, j as int, path_low@, text_low@, lang, fw);
            }
            return None;
        }
    }
    assert(all.take(j as int) =~= all);
    Some(score as usize)
}

/// Whether a file with `path` and `score` is ranked before `other`.
fn ranked_before(path: &Vec<char>, score: usize, other: &(Vec<char>, usize)) -> (r: bool)
    ensures
        r == ranks_before((score as nat, path@), (other.1 as nat, other.0@)),
{
    score > other.1 || (score == other.1 && crate::line_set::lt_vec(path, &other.0))
}

/// Adds a file to a ranked list, keeping it ranked.
fn insert_ranked(items: &mut Vec<(Vec<char>, usize)>, path: Vec<char>, score: usize)
    requires
        rank_sorted(keys_of(old(items)@)),
    ensures
        rank_sorted(keys_of(final(items)@)),
        keys_of(final(items)@).to_multiset() == keys_of(old(items)@).to_multiset().insert(
            (score as nat, path@),
        ),
{
    let ghost s = keys_of(items@);
    let ghost x: RankKey = (score as nat, path@);
    let mut i: usize = 0;
    while i < items.len() && !ranked_before(&path, score, &items[i])
        invariant
            s == keys_of(items@),
            rank_sorted(s),
            x == (score as nat, path@),
            i <= items.len(),
            forall|q: int| 0 <= q < i ==> !ranks_before(x, #[trigger] s[q]),
        decreases items.len() - i,
    {
        i += 1;
    }
    assert(i < s.len() ==> ranks_before(x, s[i as int]));
    items.insert(i, (path, score));
    let ghost t = keys_of(items@);
    assert(t =~= s.insert(i as int, x));
    assert forall|p: int, q: int| 0 <= p < q < t.len() implies !ranks_before(
        #[trigger] t[q],
        #[trigger] t[p],
    ) by {
        if q < i {
            assert(t[q] == s[q] && t[p] == s[p]);
        } else if q == i {
            assert(t[p] == s[p]);
        } else if p < i {
            assert(t[q] == s[q - 1] && t[p] == s[p]);
        } else if p == i {
            assert(t[q] == s[q - 1]);
            if ranks_before(s[q - 1], x) {
                lemma_before_transitive(s[q - 1], x, s[i as int]);
                if q - 1 == i {
                    lemma_before_irreflexive(s[i as int]);
                }
            }
        } else {
            assert(t[q] == s[q - 1] && t[p] == s[p - 1]);
        }
    }
}

/// Ranks the files, or gives `None` when a score exceeds `usize`.
fn rank_core(query: &str, files: &Vec<FixtureFile>) -> (r: Option<Vec<String>>)
    ensures
        r is Some <==> forall|i: int|
            0 <= i < files.len() ==> file_score(query@, #[trigger] files@[i]) <= usize::MAX,
        r is Some ==> strings_view(r->Some_0@) == ranked_paths(query@, files@),
{
    let tl = terms(query);
    let mut ts: Vec<Vec<char>> = Vec::new();
    let mut k: usize = 0;
    while k < tl.len()
        invariant
            k <= tl.len(),
            vv(ts@) == strings_view(tl@).take(k as int),
        decreases tl.len() - k,
    {
        let ghost before = vv(ts@);
        ts.push(chars_of(tl[k].as_str()));
        k += 1;
        assert(vv(ts@) =~= before.push(tl@[k - 1]@));
        assert(strings_view(tl@).take(k as int) =~= strings_view(tl@).take(k - 1).push(tl@[k - 1]@));
    }
    assert(strings_view(tl@).take(k as int) =~= strings_view(tl@));
    assert(vv(ts@) == query_terms(query@));
    let mut items: Vec<(Vec<char>, usize)> = Vec::new();
    let mut n: usize = 0;
    while n < files.len()
        invariant
            n <= files.len(),
            vv(ts@) == query_terms(query@),
            rank_sorted(keys_of(items@)),
            keys_of(items@).to_multiset() == scored(query@, files@.take(n as int)).to_multiset(),
            forall|i: int| 0 <= i < n ==> file_score(query@, #[trigger] files@[i]) <= usize::MAX,
        decreases files.len() - n,
    {
        let f = &files[n];
        let path_low = chars_of(to_lowercase_of(f.path.as_str()).as_str());
        let text_low = chars_of(to_lowercase_of(f.content.as_str()).as_str());
        match score_file(&ts, f, &path_low, &text_low) {
            None => {
                assert(file_score(query@, files@[n as int]) > usize::MAX);
                return None;
            },
            Some(sc) => {
                let ghost before = keys_of(items@);
                insert_ranked(&mut items, chars_of(f.path.as_str()), sc);
                assert(scored(query@, files@.take(n + 1)) =~= scored(query@, files@.take(n as int)).push(
                    (sc as nat, f.path@),
                ));
                n += 1;
            },
        }
    }
    assert(files@.take(n as int) =~= files@);
    let ghost keys = keys_of(items@);
    proof {
        lemma_ranking_is(keys, scored(query@, files@));
    }
    let mut out: Vec<String> = Vec::new();
    let mut m: usize = 0;
    while m < items.len()
        invariant
            keys == keys_of(items@),
            m <= items.len(),
            strings_view(out@) == keys.take(m as int).map_values(|x: RankKey| x.1),
        decreases items.len() - m,
    {
        let ghost before = strings_view(out@);
        out.push(string_from_chars(&items[m].0));
        m += 1;
        assert(strings_view(out@) =~= before.push(items@[m - 1].0@));
        assert(keys[m - 1].1 == items@[m - 1].0@);
        assert(keys.take(m as int).map_values(|x: RankKey| x.1) =~= keys.take(m - 1).map_values(
            |x: RankKey| x.1,
        ).push(keys[m - 1].1));
    }
    assert(keys.take(m as int) =~= keys);
    Some(out)
}

/// The paths of the fixture files, best ranked first for the query: by
/// score, highest first, and by path among equal scores. A file's score
/// must fit in a `usize`.
pub fn ranked_files(query: &str, files: &Vec<FixtureFile>) -> (r: Vec<String>)
    requires
        forall|i: int| 0 <= i < files.len() ==> file_score(query@, #[trigger] files@[i]) <= usize::MAX,
    ensures
        strings_view(r@) == ranked_paths(query@, files@),
{
    match rank_core(query, files) {
        Some(v) => v,
        None => Vec::new(),
    }
}

/// The ranking of `ranked_files`, or `None` when a file's score does not
/// fit in a `usize`.
pub fn checked_ranked_files(query: &str, files: &Vec<FixtureFile>) -> (r: Option<Vec<String>>)
    ensures
        r is Some <==> forall|i: int|
            0 <= i < files.len() ==> file_score(query@, #[trigger] files@[i]) <= usize::MAX,
        r is Some ==> strings_view(r->Some_0@) == ranked_paths(query@, files@),
{
    if rank_core(query, files).is_some() {
        Some(ranked_files(query, files))
    } else {
        None
    }
}

} // verus!
