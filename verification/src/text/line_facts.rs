//! Facts about splitting text into lines, joining lines, and trimming.
use vstd::prelude::*;

use crate::text::{is_ws, joined_with, lemma_trim_end_prefix, lines, split_nl, strip_cr, trim, trim_end, Lines};

verus! {

/// No line break (`'\n'` or `'\r'`) in `s`.
pub open spec fn no_break(s: Seq<char>) -> bool {
    forall|i: int| 0 <= i < s.len() ==> #[trigger] s[i] != '\n' && s[i] != '\r'
}

/// No carriage return in `s`.
pub open spec fn no_cr(s: Seq<char>) -> bool {
    forall|i: int| 0 <= i < s.len() ==> #[trigger] s[i] != '\r'
}

/// The pieces of a text between line feeds: the closed lines and the
/// open one.
pub open spec fn pieces(s: Seq<char>) -> Lines {
    split_nl(s).0.push(split_nl(s).1)
}

/// Text without a line feed is one open line.
pub proof fn lemma_split_no_nl(a: Seq<char>)
    requires
        forall|i: int| 0 <= i < a.len() ==> #[trigger] a[i] != '\n',
    ensures
        split_nl(a) == (Seq::<Seq<char>>::empty(), a),
    decreases a.len(),
{
    if a.len() > 0 {
        lemma_split_no_nl(a.drop_last());
        assert(a.drop_last().push(a.last()) =~= a);
    }
}

/// After a text whose last line is closed, splitting goes on as if from
/// the start.
pub proof fn lemma_split_concat(a: Seq<char>, b: Seq<char>)
    requires
        split_nl(a).1.len() == 0,
    ensures
        split_nl(a + b) == (split_nl(a).0 + split_nl(b).0, split_nl(b).1),
    decreases b.len(),
{
    if b.len() == 0 {
        assert(a + b =~= a);
        assert(split_nl(a).0 + Seq::<Seq<char>>::empty() =~= split_nl(a).0);
    } else {
        lemma_split_concat(a, b.drop_last());
        assert((a + b).drop_last() =~= a + b.drop_last());
        assert((a + b).last() == b.last());
        let (d, c) = split_nl(b.drop_last());
        if b.last() == '\n' {
            assert(split_nl(a).0 + d.push(strip_cr(c)) =~= (split_nl(a).0 + d).push(strip_cr(c)));
        }
    }
}

/// A line without breaks, closed by a line feed.
pub proof fn lemma_split_line(a: Seq<char>)
    requires
        no_break(a),
    ensures
        split_nl(a + seq!['\n']) == (seq![a], Seq::<char>::empty()),
{
    lemma_split_no_nl(a);
    assert((a + seq!['\n']).drop_last() =~= a);
    if a.len() > 0 {
        assert(a.last() != '\r');
    }
    assert(strip_cr(a) == a);
    assert(Seq::<Seq<char>>::empty().push(a) =~= seq![a]);
}

/// Lines without breaks, joined by line feeds, split back into the same
/// pieces.
pub proof fn lemma_pieces_joined(ls: Lines)
    requires
        ls.len() > 0,
        forall|i: int| 0 <= i < ls.len() ==> no_break(#[trigger] ls[i]),
    ensures
        split_nl(joined_with(ls, seq!['\n'])) == (ls.drop_last(), ls.last()),
    decreases ls.len(),
{
    let sep = seq!['\n'];
    if ls.len() == 1 {
        lemma_split_no_nl(ls[0]);
        assert(ls.drop_last() =~= Seq::<Seq<char>>::empty());
    } else {
        let front = ls.drop_last();
        assert forall|i: int| 0 <= i < front.len() implies no_break(#[trigger] front[i]) by {
            assert(front[i] == ls[i]);
        }
        lemma_pieces_joined(front);
        let j = joined_with(front, sep);
        // j + "\n" closes the last front line
        assert((j + sep).drop_last() =~= j);
        let c = front.last();
        if c.len() > 0 {
            assert(c.last() != '\r');
        }
        assert(strip_cr(c) == c);
        assert(split_nl(j + sep) == (front.drop_last().push(c), Seq::<char>::empty()));
        assert(front.drop_last().push(c) =~= front);
        lemma_split_no_nl(ls.last());
        lemma_split_concat(j + sep, ls.last());
        assert(joined_with(ls, sep) == j + sep + ls.last());
        assert(front + Seq::<Seq<char>>::empty() =~= front);
    }
}

/// Text without carriage returns is the join of its pieces.
pub proof fn lemma_joined_pieces(s: Seq<char>)
    requires
        no_cr(s),
    ensures
        joined_with(pieces(s), seq!['\n']) == s,
        forall|i: int| 0 <= i < pieces(s).len() ==> no_break(#[trigger] pieces(s)[i]),
    decreases s.len(),
{
    let sep = seq!['\n'];
    if s.len() == 0 {
        assert(pieces(s) =~= seq![Seq::<char>::empty()]);
    } else {
        let u = s.drop_last();
        assert forall|i: int| 0 <= i < u.len() implies #[trigger] u[i] != '\r' by {
            assert(u[i] == s[i]);
        }
        lemma_joined_pieces(u);
        let (d, c) = split_nl(u);
        assert(pieces(u) == d.push(c));
        if c.len() > 0 {
            assert(c == pieces(u)[pieces(u).len() - 1]);
            assert(no_break(c));
            assert(c.last() != '\r');
        }
        assert(strip_cr(c) == c);
        if s.last() == '\n' {
            assert(pieces(s) == d.push(c).push(Seq::<char>::empty()));
            assert(d.push(c).push(Seq::<char>::empty()).drop_last() =~= d.push(c));
            assert(joined_with(pieces(s), sep) == joined_with(d.push(c), sep) + sep + Seq::<char>::empty());
            assert(u.push('\n') =~= s);
            assert(u + sep + Seq::<char>::empty() =~= s);
            assert forall|i: int| 0 <= i < pieces(s).len() implies no_break(#[trigger] pieces(s)[i]) by {
                if i < pieces(u).len() {
                    assert(pieces(s)[i] == pieces(u)[i]);
                }
            }
        } else {
            let c2 = c.push(s.last());
            assert(pieces(s) == d.push(c2));
            assert(s.last() != '\r');
            assert(no_break(c2)) by {
                assert forall|k: int| 0 <= k < c2.len() implies #[trigger] c2[k] != '\n' && c2[k] != '\r' by {
                    if k < c.len() {
                        assert(c2[k] == c[k]);
                        assert(no_break(pieces(u)[pieces(u).len() - 1]));
                    }
                }
            }
            if d.len() == 0 {
                assert(d.push(c2) =~= seq![c2]);
                assert(d.push(c) =~= seq![c]);
                assert(u =~= c);
                assert(s =~= c2);
            } else {
                assert(d.push(c2).drop_last() =~= d);
                assert(d.push(c).drop_last() =~= d);
                assert(joined_with(d.push(c), sep) == joined_with(d, sep) + sep + c);
                assert(joined_with(d.push(c2), sep) == joined_with(d, sep) + sep + c2);
                assert(joined_with(d, sep) + sep + c2 =~= (joined_with(d, sep) + sep + c).push(s.last()));
                assert(u.push(s.last()) =~= s);
            }
            assert forall|i: int| 0 <= i < pieces(s).len() implies no_break(#[trigger] pieces(s)[i]) by {
                if i < d.len() {
                    assert(pieces(s)[i] == pieces(u)[i]);
                }
            }
        }
    }
}

/// Every line, trimmed, satisfies `q`.
pub open spec fn trims_ok(ls: Lines, q: spec_fn(Seq<char>) -> bool) -> bool {
    forall|i: int| 0 <= i < ls.len() ==> q(trim(#[trigger] ls[i]))
}

/// Dropping one trailing whitespace character leaves lines whose trims
/// were already there.
proof fn lemma_trims_drop_ws(t: Seq<char>, q: spec_fn(Seq<char>) -> bool)
    requires
        t.len() > 0,
        is_ws(t.last()),
        no_cr(t),
        trims_ok(lines(t), q),
    ensures
        trims_ok(lines(t.drop_last()), q),
        no_cr(t.drop_last()),
{
    let u = t.drop_last();
    assert forall|i: int| 0 <= i < u.len() implies #[trigger] u[i] != '\r' by {
        assert(u[i] == t[i]);
    }
    let (d, c) = split_nl(u);
    assert(t =~= u.push(t.last()));
    if t.last() == '\n' {
        if c.len() > 0 {
            lemma_joined_pieces(u);
            assert(pieces(u)[pieces(u).len() - 1] == c);
            assert(no_break(c));
            assert(c.last() != '\r');
        }
        assert(strip_cr(c) == c);
        assert(lines(t) == d.push(c));
        assert forall|i: int| 0 <= i < lines(u).len() implies q(trim(#[trigger] lines(u)[i])) by {
            assert(lines(u)[i] == lines(t)[i]);
        }
    } else {
        let c2 = c.push(t.last());
        assert(lines(t) == d.push(c2));
        assert(c2.drop_last() =~= c);
        assert(trim_end(c2) == trim_end(c));
        assert forall|i: int| 0 <= i < lines(u).len() implies q(trim(#[trigger] lines(u)[i])) by {
            if i < d.len() {
                assert(lines(u)[i] == lines(t)[i]);
            } else {
                assert(lines(u)[i] == c);
                assert(lines(t)[i] == c2);
            }
        }
    }
}

/// Trimming the end of a text keeps only lines whose trims were there.
pub proof fn lemma_trims_trim_end(t: Seq<char>, q: spec_fn(Seq<char>) -> bool)
    requires
        no_cr(t),
        trims_ok(lines(t), q),
    ensures
        trims_ok(lines(trim_end(t)), q),
        no_cr(trim_end(t)),
    decreases t.len(),
{
    if t.len() > 0 && is_ws(t.last()) {
        lemma_trims_drop_ws(t, q);
        lemma_trims_trim_end(t.drop_last(), q);
    }
}

/// The lines of joined lines are among them.
pub proof fn lemma_trims_joined(ls: Lines, q: spec_fn(Seq<char>) -> bool)
    requires
        forall|i: int| 0 <= i < ls.len() ==> no_break(#[trigger] ls[i]),
        trims_ok(ls, q),
    ensures
        trims_ok(lines(joined_with(ls, seq!['\n'])), q),
        no_cr(joined_with(ls, seq!['\n'])),
{
    let j = joined_with(ls, seq!['\n']);
    if ls.len() == 0 {
        assert(split_nl(j) == (Seq::<Seq<char>>::empty(), Seq::<char>::empty()));
    } else {
        lemma_pieces_joined(ls);
        assert forall|i: int| 0 <= i < lines(j).len() implies q(trim(#[trigger] lines(j)[i])) by {
            if i < ls.len() - 1 {
                assert(lines(j)[i] == ls.drop_last()[i]);
                assert(ls.drop_last()[i] == ls[i]);
            } else {
                assert(lines(j)[i] == ls.last());
            }
        }
        lemma_no_cr_joined(ls);
    }
}

/// Joined lines without breaks hold no carriage return.
pub proof fn lemma_no_cr_joined(ls: Lines)
    requires
        forall|i: int| 0 <= i < ls.len() ==> no_break(#[trigger] ls[i]),
    ensures
        no_cr(joined_with(ls, seq!['\n'])),
    decreases ls.len(),
{
    let sep = seq!['\n'];
    if ls.len() == 1 {
        assert(no_break(ls[0]));
    } else if ls.len() > 1 {
        let front = ls.drop_last();
        assert forall|i: int| 0 <= i < front.len() implies no_break(#[trigger] front[i]) by {
            assert(front[i] == ls[i]);
        }
        lemma_no_cr_joined(front);
        let j = joined_with(front, sep);
        let all = j + sep + ls.last();
        assert(no_break(ls.last()));
        assert forall|k: int| 0 <= k < all.len() implies #[trigger] all[k] != '\r' by {
            if k < j.len() {
                assert(all[k] == j[k]);
            } else if k == j.len() {
                assert(all[k] == '\n');
            } else {
                assert(all[k] == ls.last()[k - j.len() - 1]);
            }
        }
    }
}

/// Whitespace after a text does not change its trimmed end.
pub proof fn lemma_trim_end_ws_suffix(a: Seq<char>, w: Seq<char>)
    requires
        forall|i: int| 0 <= i < w.len() ==> is_ws(#[trigger] w[i]),
    ensures
        trim_end(a + w) == trim_end(a),
    decreases w.len(),
{
    if w.len() == 0 {
        assert(a + w =~= a);
    } else {
        assert((a + w).drop_last() =~= a + w.drop_last());
        assert((a + w).last() == w.last());
        lemma_trim_end_ws_suffix(a, w.drop_last());
    }
}

/// Trimming the end twice is trimming it once.
pub proof fn lemma_trim_end_twice(t: Seq<char>)
    ensures
        trim_end(trim_end(t)) == trim_end(t),
{
    lemma_trim_end_prefix(t);
}

} // verus!
