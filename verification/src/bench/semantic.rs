//! The context the semantic benchmark modes select from the hits of a
//! hybrid search: the hits as they come, or a context pack without
//! repeats, grouped by kind and ordered by path.
use vstd::prelude::*;

use crate::bench::modes::{contexts_view, ContextView, ModeSelection, SelectedContext};
use crate::bench::{clamp_chars, profile_name, profile_snippet_chars, ContextProfile, SourceKind};
use crate::line_set::{lemma_lt_asymmetric, lemma_lt_irreflexive, lemma_lt_total, lemma_lt_transitive, lt_vec, seq_lt};
use crate::text::{chars_of, eq_vec, push_str, string_from_chars, Lines};

verus! {

broadcast use {vstd::string::group_string_axioms, vstd::seq_lib::group_to_multiset_ensures};

/// A hit of a hybrid search, as the benchmark reads it: where it is, a
/// preview of its text, the kind of chunk, and the query terms it matched
/// when the search explained it.
pub struct SearchHit {
    pub path: String,
    pub text_preview: String,
    pub source_kind: SourceKind,
    pub matched_terms: Option<Vec<String>>,
}

/// A hit as path, preview and kind.
pub type HitView = (Seq<char>, Seq<char>, SourceKind);

pub open spec fn hits_view(v: Seq<SearchHit>) -> Seq<HitView> {
    v.map_values(|h: SearchHit| (h.path@, h.text_preview@, h.source_kind))
}

/// The first `max` characters of `t`.
pub open spec fn clamped(t: Seq<char>, max: nat) -> Seq<char> {
    t.take(
        if t.len() < max {
            t.len() as int
        } else {
            max as int
        },
    )
}

/// The context a hit gives: its path, its preview cut to `max`
/// characters, and its kind.
pub open spec fn hit_context(h: HitView, max: nat) -> ContextView {
    (h.0, clamped(h.1, max), h.2)
}

/// The key a context pack tells hits apart by: path, a colon, preview.
pub open spec fn pack_key(h: HitView) -> Seq<char> {
    h.0 + seq![':'] + h.1
}

/// The hits whose key no earlier hit has, in order.
pub open spec fn first_of_keys(hits: Seq<HitView>) -> Seq<HitView>
    decreases hits.len(),
{
    if hits.len() == 0 {
        Seq::empty()
    } else {
        let prev = first_of_keys(hits.drop_last());
        if exists|j: int| 0 <= j < hits.len() - 1 && pack_key(#[trigger] hits[j]) == pack_key(hits.last()) {
            prev
        } else {
            prev.push(hits.last())
        }
    }
}

/// Kinds that map a system's structure come first in a context pack.
pub open spec fn kind_priority(k: SourceKind) -> nat {
    match k {
        SourceKind::RouteChunk | SourceKind::MessagingChunk | SourceKind::DataAccessChunk
        | SourceKind::RealtimeChunk | SourceKind::InfrastructureChunk | SourceKind::WpfChunk
        | SourceKind::GoChunk | SourceKind::ComponentChunk => 0,
        _ => 1,
    }
}

/// Every structural kind (route, messaging, data access, realtime,
/// infrastructure, WPF, Go, component) comes first in a context pack, with
/// priority 0; only symbol chunks come after, with priority 1.
pub proof fn lemma_structural_kinds_first(k: SourceKind)
    ensures
        kind_priority(k) == 0 <==> k != SourceKind::SymbolChunk,
        k == SourceKind::SymbolChunk ==> kind_priority(k) == 1,
{
}

/// The priority of a kind in a context pack: structural kinds first.
pub fn source_kind_priority(kind: SourceKind) -> (r: usize)
    ensures
        r == kind_priority(kind),
{
    match kind {
        SourceKind::RouteChunk | SourceKind::MessagingChunk | SourceKind::DataAccessChunk
        | SourceKind::RealtimeChunk | SourceKind::InfrastructureChunk | SourceKind::WpfChunk
        | SourceKind::GoChunk | SourceKind::ComponentChunk => 0,
        _ => 1,
    }
}

/// The order of a context pack: priority, then path, then the position
/// among the kept hits (a stable sort by priority and path).
pub type PackKey = (nat, Seq<char>, nat);

pub open spec fn pack_before(a: PackKey, b: PackKey) -> bool {
    a.0 < b.0 || (a.0 == b.0 && (seq_lt(a.1, b.1) || (a.1 == b.1 && a.2 < b.2)))
}

/// Each key comes before every later one.
pub open spec fn pack_sorted(s: Seq<PackKey>) -> bool {
    forall|i: int, j: int| 0 <= i < j < s.len() ==> pack_before(#[trigger] s[i], #[trigger] s[j])
}

/// The keys of the kept hits.
pub open spec fn pack_keys(kept: Seq<HitView>) -> Seq<PackKey> {
    Seq::new(kept.len(), |i: int| (kind_priority(kept[i].2), kept[i].0, i as nat))
}

/// The keys in context pack order.
pub open spec fn pack_order(keys: Seq<PackKey>) -> Seq<PackKey> {
    choose|s: Seq<PackKey>| pack_sorted(s) && s.to_multiset() == keys.to_multiset()
}

/// A context pack of the hits: the first hit of each key, each preview
/// cut to `max` characters, ordered by priority and then path, hits that
/// tie keeping their order.
pub open spec fn context_pack(hits: Seq<HitView>, max: nat) -> Seq<ContextView> {
    let kept = first_of_keys(hits);
    pack_order(pack_keys(kept)).map_values(|k: PackKey| hit_context(kept[k.2 as int], max))
}

proof fn lemma_pack_irreflexive(a: PackKey)
    ensures
        !pack_before(a, a),
{
    lemma_lt_irreflexive(a.1);
}

proof fn lemma_pack_total(a: PackKey, b: PackKey)
    requires
        a != b,
    ensures
        pack_before(a, b) || pack_before(b, a),
{
    if a.0 == b.0 {
        if a.1 == b.1 {
            assert(a.2 != b.2);
        } else {
            lemma_lt_total(a.1, b.1);
        }
    }
}

proof fn lemma_pack_asymmetric(a: PackKey, b: PackKey)
    requires
        pack_before(a, b),
    ensures
        !pack_before(b, a),
{
    if a.0 == b.0 && seq_lt(a.1, b.1) {
        lemma_lt_asymmetric(a.1, b.1);
    }
    if a.0 == b.0 && a.1 == b.1 {
        lemma_lt_irreflexive(a.1);
    }
}

proof fn lemma_pack_transitive(a: PackKey, b: PackKey, c: PackKey)
    requires
        pack_before(a, b),
        pack_before(b, c),
    ensures
        pack_before(a, c),
{
    if a.0 == b.0 && b.0 == c.0 {
        if seq_lt(a.1, b.1) && seq_lt(b.1, c.1) {
            lemma_lt_transitive(a.1, b.1, c.1);
        }
    }
}

/// Two sorted sequences of the same keys are the same: the order of a
/// context pack is determined by its keys.
pub proof fn lemma_pack_order_unique(a: Seq<PackKey>, b: Seq<PackKey>)
    requires
        pack_sorted(a),
        pack_sorted(b),
        a.to_multiset() == b.to_multiset(),
    ensures
        a == b,
    decreases a.len(),
{
    assert(a.len() == a.to_multiset().len());
    assert(b.len() == b.to_multiset().len());
    if a.len() == 0 {
        assert(a =~= b);
    } else {
        assert(a.to_multiset().count(a[0]) > 0) by {
            assert(a.contains(a[0]));
        }
        assert(b.to_multiset().count(b[0]) > 0) by {
            assert(b.contains(b[0]));
        }
        assert(b.contains(a[0]));
        assert(a.contains(b[0]));
        let j = choose|j: int| 0 <= j < b.len() && b[j] == a[0];
        let k = choose|k: int| 0 <= k < a.len() && a[k] == b[0];
        if a[0] != b[0] {
            lemma_pack_total(a[0], b[0]);
            if pack_before(a[0], b[0]) {
                assert(j > 0);
                assert(pack_before(b[0], b[j]));
                lemma_pack_asymmetric(a[0], b[0]);
            } else {
                assert(k > 0);
                assert(pack_before(a[0], a[k]));
                lemma_pack_asymmetric(b[0], a[0]);
            }
        }
        let ar = a.remove(0);
        let br = b.remove(0);
        assert(ar.to_multiset() == a.to_multiset().remove(a[0]));
        assert(br.to_multiset() == b.to_multiset().remove(b[0]));
        assert(pack_sorted(ar)) by {
            assert forall|i: int, m: int| 0 <= i < m < ar.len() implies pack_before(
                #[trigger] ar[i],
                #[trigger] ar[m],
            ) by {
                assert(ar[m] == a[m + 1] && ar[i] == a[i + 1]);
            }
        }
        assert(pack_sorted(br)) by {
            assert forall|i: int, m: int| 0 <= i < m < br.len() implies pack_before(
                #[trigger] br[i],
                #[trigger] br[m],
            ) by {
                assert(br[m] == b[m + 1] && br[i] == b[i + 1]);
            }
        }
        lemma_pack_order_unique(ar, br);
        assert(a =~= seq![a[0]] + ar);
        assert(b =~= seq![b[0]] + br);
    }
}

/// Inserts a key before the first key it comes before.
pub open spec fn pack_insert(s: Seq<PackKey>, x: PackKey) -> Seq<PackKey>
    decreases s.len(),
{
    if s.len() == 0 {
        seq![x]
    } else if pack_before(x, s[0]) {
        seq![x] + s
    } else {
        seq![s[0]] + pack_insert(s.drop_first(), x)
    }
}

proof fn lemma_pack_insert(s: Seq<PackKey>, x: PackKey)
    requires
        pack_sorted(s),
        !s.contains(x),
    ensures
        pack_sorted(pack_insert(s, x)),
        pack_insert(s, x).to_multiset() == s.to_multiset().insert(x),
    decreases s.len(),
{
    let r = pack_insert(s, x);
    if s.len() == 0 {
        assert(r =~= Seq::<PackKey>::empty().push(x));
    } else if pack_before(x, s[0]) {
        assert(r =~= s.insert(0, x));
        assert forall|i: int, j: int| 0 <= i < j < r.len() implies pack_before(#[trigger] r[i], #[trigger] r[j]) by {
            if i == 0 {
                assert(r[j] == s[j - 1]);
                if j - 1 > 0 {
                    assert(pack_before(s[0], s[j - 1]));
                    lemma_pack_transitive(x, s[0], s[j - 1]);
                }
            } else {
                assert(r[i] == s[i - 1] && r[j] == s[j - 1]);
            }
        }
    } else {
        let t = s.drop_first();
        assert(pack_sorted(t)) by {
            assert forall|i: int, j: int| 0 <= i < j < t.len() implies pack_before(#[trigger] t[i], #[trigger] t[j]) by {
                assert(t[i] == s[i + 1] && t[j] == s[j + 1]);
            }
        }
        assert(!t.contains(x)) by {
            if t.contains(x) {
                let m = choose|m: int| 0 <= m < t.len() && t[m] == x;
                assert(s[m + 1] == x);
            }
        }
        assert(s[0] != x) by {
            assert(s.contains(s[0]));
        }
        lemma_pack_total(x, s[0]);
        lemma_pack_insert(t, x);
        let rt = pack_insert(t, x);
        assert(r =~= seq![s[0]] + rt);
        assert(r.to_multiset() == s.to_multiset().insert(x)) by {
            assert(seq![s[0]] + rt =~= rt.insert(0, s[0]));
            assert(s =~= t.insert(0, s[0]));
        }
        assert forall|i: int, j: int| 0 <= i < j < r.len() implies pack_before(#[trigger] r[i], #[trigger] r[j]) by {
            if i == 0 {
                let y = r[j];
                assert(y == rt[j - 1]);
                assert(rt.contains(y));
                assert(rt.to_multiset().count(y) > 0);
                if y != x {
                    assert(t.to_multiset().count(y) > 0);
                    assert(t.contains(y));
                    let k = choose|k: int| 0 <= k < t.len() && t[k] == y;
                    assert(s[k + 1] == y);
                }
            } else {
                assert(r[i] == rt[i - 1] && r[j] == rt[j - 1]);
            }
        }
    }
}

/// Keys that are all different have a pack order: the same keys, each
/// before every later one.
pub proof fn lemma_pack_order_exists(keys: Seq<PackKey>)
    requires
        keys.no_duplicates(),
    ensures
        pack_sorted(pack_order(keys)),
        pack_order(keys).to_multiset() == keys.to_multiset(),
    decreases keys.len(),
{
    if keys.len() == 0 {
        assert(keys =~= Seq::<PackKey>::empty());
        lemma_pack_order_is(Seq::<PackKey>::empty(), keys);
    } else {
        let d = keys.drop_last();
        assert(d.no_duplicates()) by {
            assert forall|i: int, j: int| 0 <= i < d.len() && 0 <= j < d.len() && i != j implies d[i] != d[j] by {
                assert(d[i] == keys[i] && d[j] == keys[j]);
            }
        }
        lemma_pack_order_exists(d);
        let o = pack_order(d);
        assert(!o.contains(keys.last())) by {
            if o.contains(keys.last()) {
                assert(o.to_multiset().count(keys.last()) > 0);
                assert(d.to_multiset().count(keys.last()) > 0);
                assert(d.contains(keys.last()));
                let m = choose|m: int| 0 <= m < d.len() && d[m] == keys.last();
                assert(keys[m] == keys[keys.len() - 1]);
            }
        }
        lemma_pack_insert(o, keys.last());
        assert(keys =~= d.push(keys.last()));
        lemma_pack_order_is(pack_insert(o, keys.last()), keys);
    }
}

/// In a context pack no symbol chunk comes before a structural one: every
/// route, messaging, data access, realtime, infrastructure, WPF, Go or
/// component context precedes every symbol context.
pub proof fn lemma_pack_structural_before_symbols(hits: Seq<HitView>, max: nat, i: int, j: int)
    requires
        0 <= i < j < context_pack(hits, max).len(),
    ensures
        !(context_pack(hits, max)[i].2 == SourceKind::SymbolChunk && context_pack(hits, max)[j].2
            != SourceKind::SymbolChunk),
{
    let kept = first_of_keys(hits);
    let keys = pack_keys(kept);
    assert(keys.no_duplicates()) by {
        assert forall|a: int, b: int| 0 <= a < keys.len() && 0 <= b < keys.len() && a != b implies keys[a] != keys[b] by {
            assert(keys[a].2 == a && keys[b].2 == b);
        }
    }
    lemma_pack_order_exists(keys);
    let order = pack_order(keys);
    assert(order.len() == order.to_multiset().len());
    assert(keys.len() == keys.to_multiset().len());
    assert(pack_before(order[i], order[j]));
    assert(order.contains(order[i]) && order.contains(order[j]));
    assert(order.to_multiset().count(order[i]) > 0 && order.to_multiset().count(order[j]) > 0);
    assert(keys.contains(order[i]) && keys.contains(order[j]));
    let a = choose|a: int| 0 <= a < keys.len() && keys[a] == order[i];
    let b = choose|b: int| 0 <= b < keys.len() && keys[b] == order[j];
    assert(context_pack(hits, max)[i].2 == kept[a].2);
    assert(context_pack(hits, max)[j].2 == kept[b].2);
    lemma_structural_kinds_first(kept[a].2);
    lemma_structural_kinds_first(kept[b].2);
}

/// A sorted sequence of the keys is their pack order.
pub proof fn lemma_pack_order_is(s: Seq<PackKey>, keys: Seq<PackKey>)
    requires
        pack_sorted(s),
        s.to_multiset() == keys.to_multiset(),
    ensures
        pack_order(keys) == s,
{
    let t = pack_order(keys);
    assert(pack_sorted(t) && t.to_multiset() == keys.to_multiset());
    lemma_pack_order_unique(t, s);
}

/// The kept hits, given the positions kept.
pub open spec fn kept_hits(pos: Seq<usize>, hv: Seq<HitView>) -> Seq<HitView> {
    pos.map_values(|x: usize| hv[x as int])
}

/// Sort keys as the pack orders them.
pub open spec fn items_view(v: Seq<(usize, Vec<char>, usize)>) -> Seq<PackKey> {
    v.map_values(|x: (usize, Vec<char>, usize)| (x.0 as nat, x.1@, x.2 as nat))
}

/// The key a hit is told apart by.
fn pack_key_exec(h: &SearchHit) -> (r: Vec<char>)
    ensures
        r@ == pack_key((h.path@, h.text_preview@, h.source_kind)),
{
    let mut out: Vec<char> = Vec::new();
    push_str(&mut out, h.path.as_str());
    out.push(':');
    push_str(&mut out, h.text_preview.as_str());
    assert(out@ =~= h.path@ + seq![':'] + h.text_preview@);
    out
}

/// The positions of the hits whose key no earlier hit has.
fn first_of_keys_exec(hits: &Vec<SearchHit>) -> (r: Vec<usize>)
    ensures
        kept_hits(r@, hits_view(hits@)) == first_of_keys(hits_view(hits@)),
        forall|i: int| 0 <= i < r.len() ==> r@[i] < hits.len(),
{
    let ghost hv = hits_view(hits@);
    let mut keys: Vec<Vec<char>> = Vec::new();
    let mut kept: Vec<usize> = Vec::new();
    let mut i: usize = 0;
    assert(hv.take(0) =~= Seq::<HitView>::empty());
    while i < hits.len()
        invariant
            hv == hits_view(hits@),
            i <= hits.len(),
            keys.len() == i,
            forall|j: int| 0 <= j < i ==> (#[trigger] keys@[j])@ == pack_key(hv[j]),
            kept_hits(kept@, hv) == first_of_keys(hv.take(i as int)),
            forall|k: int| 0 <= k < kept.len() ==> kept@[k] < i,
        decreases hits.len() - i,
    {
        let key = pack_key_exec(&hits[i]);
        let mut seen = false;
        let mut j: usize = 0;
        while j < i
            invariant
                j <= i,
                i < hits.len(),
                keys.len() == i,
                hv == hits_view(hits@),
                key@ == pack_key(hv[i as int]),
                forall|m: int| 0 <= m < i ==> (#[trigger] keys@[m])@ == pack_key(hv[m]),
                seen <==> exists|m: int| 0 <= m < j && pack_key(#[trigger] hv[m]) == key@,
            decreases i - j,
        {
            assert(keys@[j as int]@ == pack_key(hv[j as int]));
            if eq_vec(&keys[j], &key) {
                seen = true;
            }
            j += 1;
        }
        let ghost prev = kept_hits(kept@, hv);
        assert(hv.take(i + 1).drop_last() =~= hv.take(i as int));
        assert(hv.take(i + 1).last() == hv[i as int]);
        assert((exists|m: int| 0 <= m < i && pack_key(#[trigger] hv[m]) == key@) <==> (exists|m: int|
            0 <= m < hv.take(i + 1).len() - 1 && pack_key(#[trigger] hv.take(i + 1)[m]) == pack_key(
                hv.take(i + 1).last(),
            ))) by {
            if exists|m: int| 0 <= m < i && pack_key(#[trigger] hv[m]) == key@ {
                let m = choose|m: int| 0 <= m < i && pack_key(#[trigger] hv[m]) == key@;
                assert(hv.take(i + 1)[m] == hv[m]);
            }
            if exists|m: int|
                0 <= m < hv.take(i + 1).len() - 1 && pack_key(#[trigger] hv.take(i + 1)[m]) == pack_key(
                    hv.take(i + 1).last(),
                ) {
                let m = choose|m: int|
                    0 <= m < hv.take(i + 1).len() - 1 && pack_key(#[trigger] hv.take(i + 1)[m]) == pack_key(
                        hv.take(i + 1).last(),
                    );
                assert(hv.take(i + 1)[m] == hv[m]);
            }
        }
        if !seen {
            kept.push(i);
            assert(kept_hits(kept@, hv) =~= prev.push(hv[i as int]));
        }
        keys.push(key);
        i += 1;
    }
    assert(hv.take(i as int) =~= hv);
    kept
}

/// Whether the key `(prio, path, pos)` comes before `other`.
fn pack_before_exec(prio: usize, path: &Vec<char>, pos: usize, other: &(usize, Vec<char>, usize)) -> (r: bool)
    ensures
        r == pack_before((prio as nat, path@, pos as nat), (other.0 as nat, other.1@, other.2 as nat)),
{
    prio < other.0 || (prio == other.0 && (lt_vec(path, &other.1) || (eq_vec(path, &other.1) && pos < other.2)))
}

/// Adds a key later than every position so far, keeping the keys sorted.
fn insert_pack(items: &mut Vec<(usize, Vec<char>, usize)>, prio: usize, path: Vec<char>, pos: usize)
    requires
        pack_sorted(items_view(old(items)@)),
        forall|k: int| 0 <= k < old(items).len() ==> (#[trigger] old(items)@[k]).2 < pos,
    ensures
        pack_sorted(items_view(final(items)@)),
        items_view(final(items)@).to_multiset() == items_view(old(items)@).to_multiset().insert(
            (prio as nat, path@, pos as nat),
        ),
        forall|k: int| 0 <= k < final(items).len() ==> (#[trigger] final(items)@[k]).2 <= pos,
{
    let ghost s = items_view(items@);
    let ghost x: PackKey = (prio as nat, path@, pos as nat);
    let ghost old_items = items@;
    let mut i: usize = 0;
    while i < items.len() && !pack_before_exec(prio, &path, pos, &items[i])
        invariant
            s == items_view(items@),
            items@ == old_items,
            pack_sorted(s),
            x == (prio as nat, path@, pos as nat),
            i <= items.len(),
            forall|k: int| 0 <= k < items.len() ==> (#[trigger] items@[k]).2 < pos,
            forall|q: int| 0 <= q < i ==> pack_before(#[trigger] s[q], x),
        decreases items.len() - i,
    {
        assert(s[i as int].2 < x.2);
        assert(s[i as int] != x);
        proof {
            lemma_pack_total(s[i as int], x);
        }
        i += 1;
    }
    assert(i < s.len() ==> pack_before(x, s[i as int]));
    items.insert(i, (prio, path, pos));
    let ghost t = items_view(items@);
    assert(t =~= s.insert(i as int, x));
    assert forall|p: int, q: int| 0 <= p < q < t.len() implies pack_before(#[trigger] t[p], #[trigger] t[q]) by {
        if q < i {
            assert(t[q] == s[q] && t[p] == s[p]);
        } else if q == i {
            assert(t[p] == s[p]);
        } else if p < i {
            assert(t[q] == s[q - 1] && t[p] == s[p]);
        } else if p == i {
            assert(t[q] == s[q - 1]);
            if q - 1 > i {
                lemma_pack_transitive(x, s[i as int], s[q - 1]);
            }
        } else {
            assert(t[q] == s[q - 1] && t[p] == s[p - 1]);
        }
    }
    assert forall|k: int| 0 <= k < items.len() implies (#[trigger] items@[k]).2 <= pos by {
        if k < i {
            assert(items@[k] == old_items[k]);
        } else if k > i {
            assert(items@[k] == old_items[k - 1]);
        }
    }
}

/// The context pack of the hits of a hybrid search for a profile: the
/// first hit of each key, previews cut to the profile's snippet length,
/// structural kinds first and then by path, ties keeping their order. It
/// is named after the profile and takes two tool calls.
pub fn semantic_search_context_pack(hits: &Vec<SearchHit>, profile: ContextProfile) -> (r: ModeSelection)
    ensures
        r.mode@ == "semantic_search_context_pack:"@ + profile_name(profile),
        r.profile is Some && r.profile->Some_0@ == profile_name(profile),
        r.tool_calls == 2,
        contexts_view(r.contexts@) == context_pack(hits_view(hits@), profile_snippet_chars(profile)),
{
    let ghost hv = hits_view(hits@);
    let max = profile.max_snippet_chars();
    let kept = first_of_keys_exec(hits);
    let ghost kv = kept_hits(kept@, hv);
    let ghost keys = pack_keys(kv);
    let mut items: Vec<(usize, Vec<char>, usize)> = Vec::new();
    let mut m: usize = 0;
    assert(keys.take(0) =~= Seq::<PackKey>::empty());
    while m < kept.len()
        invariant
            hv == hits_view(hits@),
            kv == kept_hits(kept@, hv),
            kv == first_of_keys(hv),
            keys == pack_keys(kv),
            forall|i: int| 0 <= i < kept.len() ==> kept@[i] < hits.len(),
            m <= kept.len(),
            pack_sorted(items_view(items@)),
            items_view(items@).to_multiset() == keys.take(m as int).to_multiset(),
            forall|k: int| 0 <= k < items.len() ==> (#[trigger] items@[k]).2 < m,
        decreases kept.len() - m,
    {
        let h = &hits[kept[m]];
        let prio = source_kind_priority(h.source_kind);
        let path = chars_of(h.path.as_str());
        assert(kv[m as int] == hv[kept@[m as int] as int]);
        assert(keys.take(m + 1) =~= keys.take(m as int).push((prio as nat, path@, m as nat)));
        insert_pack(&mut items, prio, path, m);
        m += 1;
    }
    assert(keys.take(m as int) =~= keys);
    proof {
        lemma_pack_order_is(items_view(items@), keys);
    }
    let ghost order = items_view(items@);
    let mut contexts: Vec<SelectedContext> = Vec::new();
    let mut t: usize = 0;
    while t < items.len()
        invariant
            hv == hits_view(hits@),
            kv == kept_hits(kept@, hv),
            order == items_view(items@),
            order.to_multiset() == keys.to_multiset(),
            keys == pack_keys(kv),
            max == profile_snippet_chars(profile),
            forall|i: int| 0 <= i < kept.len() ==> kept@[i] < hits.len(),
            t <= items.len(),
            contexts_view(contexts@) == order.take(t as int).map_values(
                |k: PackKey| hit_context(kv[k.2 as int], max as nat),
            ),
        decreases items.len() - t,
    {
        let pos = items[t].2;
        assert(keys.to_multiset().count(order[t as int]) > 0) by {
            assert(order.contains(order[t as int]));
        }
        assert(keys.contains(order[t as int]));
        assert(pos < kept.len());
        let h = &hits[kept[pos]];
        let ghost before = contexts_view(contexts@);
        contexts.push(
            SelectedContext {
                path: h.path.clone(),
                text: clamp_chars(h.text_preview.as_str(), max),
                source_kind: h.source_kind,
            },
        );
        t += 1;
        assert(contexts_view(contexts@) =~= before.push(hit_context(kv[pos as int], max as nat)));
        assert(order.take(t as int).map_values(|k: PackKey| hit_context(kv[k.2 as int], max as nat))
            =~= order.take(t - 1).map_values(|k: PackKey| hit_context(kv[k.2 as int], max as nat)).push(
            hit_context(kv[order[t - 1].2 as int], max as nat),
        ));
    }
    assert(order.take(t as int) =~= order);
    let name = profile.name();
    let mut mode: Vec<char> = Vec::new();
    push_str(&mut mode, "semantic_search_context_pack:");
    push_str(&mut mode, name);
    ModeSelection {
        mode: string_from_chars(&mode),
        profile: Some(name.to_owned()),
        tool_calls: 2,
        contexts,
    }
}

/// The semantic-search mode: each hit of the hybrid search as it comes,
/// its preview cut to the profile's snippet length. It takes one tool
/// call.
pub fn semantic_search_only(hits: &Vec<SearchHit>, profile: ContextProfile) -> (r: ModeSelection)
    ensures
        r.mode@ == "semantic_search_only"@,
        r.profile is None,
        r.tool_calls == 1,
        contexts_view(r.contexts@) == hits_view(hits@).map_values(
            |h: HitView| hit_context(h, profile_snippet_chars(profile)),
        ),
{
    let ghost hv = hits_view(hits@);
    let max = profile.max_snippet_chars();
    let mut contexts: Vec<SelectedContext> = Vec::new();
    let mut i: usize = 0;
    while i < hits.len()
        invariant
            hv == hits_view(hits@),
            max == profile_snippet_chars(profile),
            i <= hits.len(),
            contexts_view(contexts@) == hv.take(i as int).map_values(|h: HitView| hit_context(h, max as nat)),
        decreases hits.len() - i,
    {
        let ghost before = contexts_view(contexts@);
        contexts.push(
            SelectedContext {
                path: hits[i].path.clone(),
                text: clamp_chars(hits[i].text_preview.as_str(), max),
                source_kind: hits[i].source_kind,
            },
        );
        i += 1;
        assert(contexts_view(contexts@) =~= before.push(hit_context(hv[i - 1], max as nat)));
        assert(hv.take(i as int).map_values(|h: HitView| hit_context(h, max as nat)) =~= hv.take(i - 1).map_values(
            |h: HitView| hit_context(h, max as nat),
        ).push(hit_context(hv[i - 1], max as nat)));
    }
    assert(hv.take(i as int) =~= hv);
    ModeSelection { mode: "semantic_search_only".to_owned(), profile: None, tool_calls: 1, contexts }
}

} // verus!
