//! Sets of text lines kept in ascending order without repeats, the order in
//! which an ordered set of strings hands its items out.
use vstd::prelude::*;

use crate::text::{eq_vec, vv, Lines};

verus! {

/// Lexicographic order by code point, which is the byte order of the UTF-8
/// encodings.
pub open spec fn seq_lt(a: Seq<char>, b: Seq<char>) -> bool
    decreases a.len(),
{
    if a.len() == 0 {
        b.len() > 0
    } else if b.len() == 0 {
        false
    } else if a[0] != b[0] {
        (a[0] as u32) < (b[0] as u32)
    } else {
        seq_lt(a.drop_first(), b.drop_first())
    }
}

/// Every item is smaller than every later one.
pub open spec fn strictly_sorted(s: Lines) -> bool {
    forall|i: int, j: int| 0 <= i < j < s.len() ==> seq_lt(#[trigger] s[i], #[trigger] s[j])
}

/// The items of a finite set of lines in ascending order.
pub open spec fn sorted_items(set: Set<Seq<char>>) -> Lines {
    choose|s: Lines| strictly_sorted(s) && s.to_set() == set
}

/// Distinct characters have distinct code points.
proof fn lemma_code_point_injective(c: char, d: char)
    requires
        c != d,
    ensures
        (c as u32) != (d as u32),
{
}

pub proof fn lemma_lt_irreflexive(a: Seq<char>)
    ensures
        !seq_lt(a, a),
    decreases a.len(),
{
    if a.len() > 0 {
        lemma_lt_irreflexive(a.drop_first());
    }
}

pub proof fn lemma_lt_transitive(a: Seq<char>, b: Seq<char>, c: Seq<char>)
    requires
        seq_lt(a, b),
        seq_lt(b, c),
    ensures
        seq_lt(a, c),
    decreases a.len(),
{
    if a.len() > 0 && b.len() > 0 && c.len() > 0 && a[0] == b[0] && b[0] == c[0] {
        lemma_lt_transitive(a.drop_first(), b.drop_first(), c.drop_first());
    }
}

pub proof fn lemma_lt_total(a: Seq<char>, b: Seq<char>)
    requires
        a != b,
    ensures
        seq_lt(a, b) || seq_lt(b, a),
    decreases a.len(),
{
    if a.len() == 0 {
        assert(b.len() > 0) by {
            if b.len() == 0 {
                assert(a =~= b);
            }
        }
    } else if b.len() > 0 && a[0] == b[0] {
        if a.drop_first() == b.drop_first() {
            assert(a =~= seq![a[0]] + a.drop_first());
            assert(b =~= seq![b[0]] + b.drop_first());
        }
        lemma_lt_total(a.drop_first(), b.drop_first());
    } else if b.len() > 0 {
        lemma_code_point_injective(a[0], b[0]);
    }
}

pub proof fn lemma_lt_asymmetric(a: Seq<char>, b: Seq<char>)
    requires
        seq_lt(a, b),
    ensures
        !seq_lt(b, a),
{
    if seq_lt(b, a) {
        lemma_lt_transitive(a, b, a);
        lemma_lt_irreflexive(a);
    }
}

/// Two ascending sequences without repeats that hold the same items are
/// the same sequence.
pub proof fn lemma_sorted_unique(a: Lines, b: Lines)
    requires
        strictly_sorted(a),
        strictly_sorted(b),
        a.to_set() == b.to_set(),
    ensures
        a == b,
    decreases a.len(),
{
    if a.len() == 0 {
        if b.len() > 0 {
            assert(b.to_set().contains(b[0]));
        }
        assert(a =~= b);
    } else {
        assert(a.to_set().contains(a[0]));
        assert(b.len() > 0);
        assert(b.to_set().contains(b[0]));
        let j = choose|j: int| 0 <= j < b.len() && b[j] == a[0];
        let k = choose|k: int| 0 <= k < a.len() && a[k] == b[0];
        if j > 0 {
            assert(seq_lt(b[0], b[j]));
            if k > 0 {
                assert(seq_lt(a[0], a[k]));
                lemma_lt_asymmetric(a[0], a[k]);
            } else {
                lemma_lt_irreflexive(a[0]);
            }
        }
        assert(a[0] == b[0]);
        let ar = a.drop_first();
        let br = b.drop_first();
        assert forall|x: Seq<char>| ar.to_set().contains(x) implies br.to_set().contains(x) by {
            let i = choose|i: int| 0 <= i < ar.len() && ar[i] == x;
            assert(a[i + 1] == x);
            assert(seq_lt(a[0], a[i + 1]));
            lemma_lt_irreflexive(x);
            assert(b.to_set().contains(x));
            let m = choose|m: int| 0 <= m < b.len() && b[m] == x;
            assert(m != 0);
            assert(br[m - 1] == x);
        }
        assert forall|x: Seq<char>| br.to_set().contains(x) implies ar.to_set().contains(x) by {
            let i = choose|i: int| 0 <= i < br.len() && br[i] == x;
            assert(b[i + 1] == x);
            assert(seq_lt(b[0], b[i + 1]));
            lemma_lt_irreflexive(x);
            assert(a.to_set().contains(x));
            let m = choose|m: int| 0 <= m < a.len() && a[m] == x;
            assert(m != 0);
            assert(ar[m - 1] == x);
        }
        assert(ar.to_set() =~= br.to_set());
        assert forall|i: int, j: int| 0 <= i < j < ar.len() implies seq_lt(
            #[trigger] ar[i],
            #[trigger] ar[j],
        ) by {
            assert(ar[i] == a[i + 1] && ar[j] == a[j + 1]);
        }
        assert forall|i: int, j: int| 0 <= i < j < br.len() implies seq_lt(
            #[trigger] br[i],
            #[trigger] br[j],
        ) by {
            assert(br[i] == b[i + 1] && br[j] == b[j + 1]);
        }
        lemma_sorted_unique(ar, br);
        assert(a =~= seq![a[0]] + ar);
        assert(b =~= seq![b[0]] + br);
    }
}

/// An ascending sequence without repeats is the sorted list of its items.
pub proof fn lemma_sorted_items(s: Lines)
    requires
        strictly_sorted(s),
    ensures
        sorted_items(s.to_set()) == s,
{
    let t = sorted_items(s.to_set());
    assert(strictly_sorted(t) && t.to_set() == s.to_set());
    lemma_sorted_unique(t, s);
}

/// Whether `a` comes before `b`.
pub fn lt_vec(a: &Vec<char>, b: &Vec<char>) -> (r: bool)
    ensures
        r == seq_lt(a@, b@),
{
    let mut i: usize = 0;
    assert(a@.skip(0) =~= a@);
    assert(b@.skip(0) =~= b@);
    while i < a.len() && i < b.len() && a[i] == b[i]
        invariant
            i <= a.len(),
            i <= b.len(),
            seq_lt(a@, b@) == seq_lt(a@.skip(i as int), b@.skip(i as int)),
        decreases a.len() - i,
    {
        assert(a@.skip(i as int).drop_first() =~= a@.skip(i + 1));
        assert(b@.skip(i as int).drop_first() =~= b@.skip(i + 1));
        i += 1;
    }
    if i == a.len() {
        i < b.len()
    } else if i == b.len() {
        false
    } else {
        (a[i] as u32) < (b[i] as u32)
    }
}

/// Adds `item` to an ascending list without repeats, keeping it so.
pub fn insert_sorted(items: &mut Vec<Vec<char>>, item: Vec<char>)
    requires
        strictly_sorted(vv(old(items)@)),
    ensures
        strictly_sorted(vv(final(items)@)),
        vv(final(items)@).to_set() == vv(old(items)@).to_set().insert(item@),
{
    let ghost s = vv(items@);
    let ghost x = item@;
    let mut i: usize = 0;
    while i < items.len() && lt_vec(&items[i], &item)
        invariant
            s == vv(items@),
            strictly_sorted(s),
            x == item@,
            i <= items.len(),
            forall|p: int| 0 <= p < i ==> seq_lt(#[trigger] s[p], x),
        decreases items.len() - i,
    {
        assert(s[i as int] == items@[i as int]@);
        i += 1;
    }
    if i < items.len() {
        assert(s[i as int] == items@[i as int]@);
        assert(!seq_lt(s[i as int], x));
        let same = eq_vec(&items[i], &item);
        if same {
            assert(s[i as int] == x);
            assert(s.to_set() =~= s.to_set().insert(x));
            return;
        }
        proof {
            lemma_lt_total(s[i as int], x);
        }
    }
    items.insert(i, item);
    let ghost t = vv(items@);
    assert(t =~= s.insert(i as int, x));
    assert forall|p: int, q: int| 0 <= p < q < t.len() implies seq_lt(
        #[trigger] t[p],
        #[trigger] t[q],
    ) by {
        if q < i {
        } else if q == i {
            assert(t[p] == s[p]);
        } else if p < i {
            assert(t[q] == s[q - 1]);
            if q - 1 > i {
                assert(seq_lt(s[i as int], s[q - 1]));
                lemma_lt_transitive(x, s[i as int], s[q - 1]);
            }
            lemma_lt_transitive(s[p], x, s[q - 1]);
        } else if p == i {
            assert(t[q] == s[q - 1]);
            if q - 1 > i {
                assert(seq_lt(s[i as int], s[q - 1]));
                lemma_lt_transitive(x, s[i as int], s[q - 1]);
            }
        } else {
            assert(t[p] == s[p - 1] && t[q] == s[q - 1]);
        }
    }
    assert forall|y: Seq<char>| t.to_set().contains(y) <==> s.to_set().insert(x).contains(y) by {
        if t.to_set().contains(y) {
            let m = choose|m: int| 0 <= m < t.len() && t[m] == y;
            if m < i {
                assert(s[m] == y);
            } else if m > i {
                assert(s[m - 1] == y);
            }
        }
        if s.to_set().contains(y) {
            let m = choose|m: int| 0 <= m < s.len() && s[m] == y;
            if m < i {
                assert(t[m] == y);
            } else {
                assert(t[m + 1] == y);
            }
        }
        if y == x {
            assert(t[i as int] == x);
        }
    }
    assert(t.to_set() =~= s.to_set().insert(x));
}

} // verus!
