//! Rewriting a Codex config twice: the section scan over joined texts,
//! the lines of the generated section, and the law that a second install
//! changes nothing.
use vstd::prelude::*;

use crate::setup::codex::{
    broken_header, escape, escape_char, is_broken_header, section_scan, server_header,
    snippet_text, toml_error, updated_codex, without_server,
};
use crate::setup::{profile_text, InstallOptions, ToolProfileName};
use crate::text::line_facts::{
    lemma_joined_pieces, lemma_split_concat, lemma_split_line, lemma_trim_end_twice,
    lemma_trim_end_ws_suffix, lemma_trims_joined, lemma_trims_trim_end, no_break, no_cr, pieces,
    trims_ok,
};
use crate::text::{
    ends_with, is_ws, joined_with, lemma_trim_end_prefix, lines, split_nl, starts_with, strip_cr,
    trim, trim_end, trim_start, Lines,
};

verus! {

/// One step of the section scan.
pub open spec fn scan_step(st: (Lines, bool), l: Seq<char>, header: Seq<char>) -> (Lines, bool) {
    let (kept, skipping) = st;
    let t = trim(l);
    if t == header {
        (kept, true)
    } else {
        let still = skipping && !(starts_with(t, "["@) && ends_with(t, "]"@));
        if still {
            (kept, true)
        } else {
            (kept.push(l), false)
        }
    }
}

/// The section scan continued from `st` over `ls`.
pub open spec fn scan_from(st: (Lines, bool), ls: Lines, header: Seq<char>) -> (Lines, bool)
    decreases ls.len(),
{
    if ls.len() == 0 {
        st
    } else {
        scan_step(scan_from(st, ls.drop_last(), header), ls.last(), header)
    }
}

/// Scanning joined lines is scanning the first part, then the rest.
pub proof fn lemma_scan_concat(a: Lines, b: Lines, header: Seq<char>)
    ensures
        section_scan(a + b, header) == scan_from(section_scan(a, header), b, header),
    decreases b.len(),
{
    if b.len() == 0 {
        assert(a + b =~= a);
    } else {
        assert((a + b).drop_last() =~= a + b.drop_last());
        assert((a + b).last() == b.last());
        lemma_scan_concat(a, b.drop_last(), header);
    }
}

/// Continuing a scan over joined lines.
pub proof fn lemma_scan_from_concat(st: (Lines, bool), a: Lines, b: Lines, header: Seq<char>)
    ensures
        scan_from(st, a + b, header) == scan_from(scan_from(st, a, header), b, header),
    decreases b.len(),
{
    if b.len() == 0 {
        assert(a + b =~= a);
    } else {
        assert((a + b).drop_last() =~= a + b.drop_last());
        assert((a + b).last() == b.last());
        lemma_scan_from_concat(st, a, b.drop_last(), header);
    }
}

/// Lines none of which is the header are all kept.
pub proof fn lemma_scan_keeps(ls: Lines, header: Seq<char>)
    requires
        forall|i: int| 0 <= i < ls.len() ==> trim(#[trigger] ls[i]) != header,
    ensures
        section_scan(ls, header) == (ls, false),
    decreases ls.len(),
{
    if ls.len() > 0 {
        assert forall|i: int| 0 <= i < ls.drop_last().len() implies trim(#[trigger] ls.drop_last()[i]) != header by {
            assert(ls.drop_last()[i] == ls[i]);
        }
        lemma_scan_keeps(ls.drop_last(), header);
        assert(ls.drop_last().push(ls.last()) =~= ls);
    }
}

/// Inside the section, lines that neither repeat the header nor open
/// another section are skipped.
pub proof fn lemma_scan_skips(kept: Lines, ls: Lines, header: Seq<char>)
    requires
        forall|i: int| 0 <= i < ls.len() ==> trim(#[trigger] ls[i]) != header && !(starts_with(trim(ls[i]), "["@)
            && ends_with(trim(ls[i]), "]"@)),
    ensures
        scan_from((kept, true), ls, header) == (kept, true),
    decreases ls.len(),
{
    if ls.len() > 0 {
        assert forall|i: int| 0 <= i < ls.drop_last().len() implies trim(#[trigger] ls.drop_last()[i]) != header
            && !(starts_with(trim(ls.drop_last()[i]), "["@) && ends_with(trim(ls.drop_last()[i]), "]"@)) by {
            assert(ls.drop_last()[i] == ls[i]);
        }
        lemma_scan_skips(kept, ls.drop_last(), header);
    }
}

/// The kept lines are lines of the text, none of them the header.
pub proof fn lemma_scan_kept(ls: Lines, header: Seq<char>)
    ensures
        forall|i: int| 0 <= i < section_scan(ls, header).0.len() ==> trim(#[trigger] section_scan(ls, header).0[i]) != header
            && exists|j: int| 0 <= j < ls.len() && ls[j] == section_scan(ls, header).0[i],
    decreases ls.len(),
{
    if ls.len() > 0 {
        lemma_scan_kept(ls.drop_last(), header);
        let prev = section_scan(ls.drop_last(), header).0;
        let now = section_scan(ls, header).0;
        assert forall|i: int| 0 <= i < now.len() implies trim(#[trigger] now[i]) != header
            && exists|j: int| 0 <= j < ls.len() && ls[j] == now[i] by {
            if i < prev.len() {
                assert(now[i] == prev[i]);
                let j = choose|j: int| 0 <= j < ls.drop_last().len() && ls.drop_last()[j] == prev[i];
                assert(ls[j] == ls.drop_last()[j]);
            } else {
                assert(now[i] == ls.last());
                assert(ls[ls.len() - 1] == now[i]);
            }
        }
    }
}

/// Lines, each closed by a line feed.
pub open spec fn closed_lines(ls: Lines) -> Seq<char>
    decreases ls.len(),
{
    if ls.len() == 0 {
        Seq::empty()
    } else {
        closed_lines(ls.drop_last()) + ls.last() + seq!['\n']
    }
}

/// Closed lines without breaks split back into themselves.
pub proof fn lemma_split_closed(ls: Lines)
    requires
        forall|i: int| 0 <= i < ls.len() ==> no_break(#[trigger] ls[i]),
    ensures
        split_nl(closed_lines(ls)) == (ls, Seq::<char>::empty()),
    decreases ls.len(),
{
    if ls.len() > 0 {
        assert forall|i: int| 0 <= i < ls.drop_last().len() implies no_break(#[trigger] ls.drop_last()[i]) by {
            assert(ls.drop_last()[i] == ls[i]);
        }
        lemma_split_closed(ls.drop_last());
        assert(no_break(ls[ls.len() - 1]));
        lemma_split_line(ls.last());
        lemma_split_concat(closed_lines(ls.drop_last()), ls.last() + seq!['\n']);
        assert(closed_lines(ls) =~= closed_lines(ls.drop_last()) + (ls.last() + seq!['\n']));
        assert(ls.drop_last() + seq![ls.last()] =~= ls);
    } else {
        assert(split_nl(Seq::<char>::empty()) == (Seq::<Seq<char>>::empty(), Seq::<char>::empty()));
    }
}

/// Escaping adds no line break.
pub proof fn lemma_escape_no_break(s: Seq<char>)
    requires
        no_break(s),
    ensures
        no_break(escape(s)),
    decreases s.len(),
{
    if s.len() > 0 {
        assert(no_break(s.drop_last())) by {
            assert forall|i: int| 0 <= i < s.drop_last().len() implies #[trigger] s.drop_last()[i] != '\n' && s.drop_last()[i] != '\r' by {
                assert(s.drop_last()[i] == s[i]);
            }
        }
        lemma_escape_no_break(s.drop_last());
        let a = escape(s.drop_last());
        let b = escape_char(s.last());
        assert(s.last() == s[s.len() - 1]);
        assert forall|i: int| 0 <= i < (a + b).len() implies #[trigger] (a + b)[i] != '\n' && (a + b)[i] != '\r' by {
            if i < a.len() {
                assert((a + b)[i] == a[i]);
            } else {
                assert((a + b)[i] == b[i - a.len()]);
            }
        }
    }
}

/// A profile's name has no line break.
pub proof fn lemma_profile_no_break(p: ToolProfileName)
    ensures
        no_break(profile_text(p)),
{
    reveal_strlit("tiny");
    reveal_strlit("optimized");
    reveal_strlit("full");
    reveal_strlit("debug");
    reveal_strlit("readonly");
    reveal_strlit("editing");
    reveal_strlit("web-app");
    reveal_strlit("enterprise");
}

/// Trimming a text whose first `k` characters are whitespace and whose
/// next is not leaves that character first.
pub proof fn lemma_trim_first(l: Seq<char>, k: int)
    requires
        0 <= k < l.len(),
        forall|i: int| 0 <= i < k ==> is_ws(#[trigger] l[i]),
        !is_ws(l[k]),
    ensures
        trim(l).len() > 0,
        trim(l)[0] == l[k],
{
    lemma_trim_end_keeps(l, k);
    let e = trim_end(l);
    crate::text::lemma_trim_end_prefix(l);
    assert(e[k] == l[k]);
    lemma_trim_start_skips(e, k);
}

proof fn lemma_trim_end_keeps(l: Seq<char>, k: int)
    requires
        0 <= k < l.len(),
        !is_ws(l[k]),
    ensures
        trim_end(l).len() > k,
    decreases l.len(),
{
    if is_ws(l.last()) {
        assert(l.drop_last()[k] == l[k]);
        lemma_trim_end_keeps(l.drop_last(), k);
    }
}

proof fn lemma_trim_start_skips(e: Seq<char>, k: int)
    requires
        0 <= k < e.len(),
        forall|i: int| 0 <= i < k ==> is_ws(#[trigger] e[i]),
        !is_ws(e[k]),
    ensures
        trim_start(e).len() > 0,
        trim_start(e)[0] == e[k],
    decreases k,
{
    if k > 0 {
        assert(is_ws(e[0]));
        assert forall|i: int| 0 <= i < k - 1 implies is_ws(#[trigger] e.drop_first()[i]) by {
            assert(e.drop_first()[i] == e[i + 1]);
        }
        lemma_trim_start_skips(e.drop_first(), k - 1);
    }
}

/// The lines of the section an install writes.
pub open spec fn snippet_lines(o: InstallOptions) -> Lines {
    seq![
        server_header(o.server_name@),
        "command = \""@ + escape(o.command_path@) + "\""@,
        "args = ["@,
        "  \"serve\","@,
        "  \"--project\","@,
        "  \""@ + escape(o.project_path@) + "\","@,
        "  \"--database\","@,
        "  \""@ + escape(o.database_path@) + "\","@,
        "  \"--profile\","@,
        "  \""@ + profile_text(o.profile) + "\""@,
        "]"@,
        "enabled = true"@,
    ]
}

proof fn lemma_closed_push(ls: Lines, l: Seq<char>)
    ensures
        closed_lines(ls.push(l)) == closed_lines(ls) + l + seq!['\n'],
{
    assert(ls.push(l).drop_last() =~= ls);
}

proof fn lemma_pieces_first()
    ensures
        "]\ncommand = \""@ =~= "]"@ + seq!['\n'] + "command = \""@,
{
    reveal_strlit("]\ncommand = \"");
    reveal_strlit("]");
    reveal_strlit("command = \"");
}

proof fn lemma_pieces_args()
    ensures
        "\"\nargs = [\n  \"serve\",\n  \"--project\",\n  \""@ =~= "\""@ + seq!['\n'] + "args = ["@ + seq!['\n']
            + "  \"serve\","@ + seq!['\n'] + "  \"--project\","@ + seq!['\n'] + "  \""@,
{
    reveal_strlit("\"\nargs = [\n  \"serve\",\n  \"--project\",\n  \"");
    reveal_strlit("\"");
    reveal_strlit("args = [");
    reveal_strlit("  \"serve\",");
    reveal_strlit("  \"--project\",");
    reveal_strlit("  \"");
}

proof fn lemma_pieces_database()
    ensures
        "\",\n  \"--database\",\n  \""@ =~= "\","@ + seq!['\n'] + "  \"--database\","@ + seq!['\n'] + "  \""@,
{
    reveal_strlit("\",\n  \"--database\",\n  \"");
    reveal_strlit("\",");
    reveal_strlit("  \"--database\",");
    reveal_strlit("  \"");
}

proof fn lemma_pieces_profile()
    ensures
        "\",\n  \"--profile\",\n  \""@ =~= "\","@ + seq!['\n'] + "  \"--profile\","@ + seq!['\n'] + "  \""@,
{
    reveal_strlit("\",\n  \"--profile\",\n  \"");
    reveal_strlit("\",");
    reveal_strlit("  \"--profile\",");
    reveal_strlit("  \"");
}

proof fn lemma_pieces_last()
    ensures
        "\"\n]\nenabled = true\n"@ =~= "\""@ + seq!['\n'] + "]"@ + seq!['\n'] + "enabled = true"@ + seq!['\n'],
{
    reveal_strlit("\"\n]\nenabled = true\n");
    reveal_strlit("\"");
    reveal_strlit("]");
    reveal_strlit("enabled = true");
}

/// The section an install writes is its lines, each closed.
#[verifier::spinoff_prover]
#[verifier::rlimit(100)]
pub proof fn lemma_snippet_closed(o: InstallOptions)
    ensures
        snippet_text(o) == closed_lines(snippet_lines(o)),
{
    let nl = seq!['\n'];
    let ls = snippet_lines(o);
    let e = Seq::<Seq<char>>::empty();
    let p1 = e.push(ls[0]);
    let p2 = p1.push(ls[1]);
    let p3 = p2.push(ls[2]);
    let p4 = p3.push(ls[3]);
    let p5 = p4.push(ls[4]);
    let p6 = p5.push(ls[5]);
    let p7 = p6.push(ls[6]);
    let p8 = p7.push(ls[7]);
    let p9 = p8.push(ls[8]);
    let p10 = p9.push(ls[9]);
    let p11 = p10.push(ls[10]);
    let p12 = p11.push(ls[11]);
    assert(p12 =~= ls);
    lemma_closed_push(e, ls[0]);
    lemma_closed_push(p1, ls[1]);
    lemma_closed_push(p2, ls[2]);
    lemma_closed_push(p3, ls[3]);
    lemma_closed_push(p4, ls[4]);
    lemma_closed_push(p5, ls[5]);
    lemma_closed_push(p6, ls[6]);
    lemma_closed_push(p7, ls[7]);
    lemma_closed_push(p8, ls[8]);
    lemma_closed_push(p9, ls[9]);
    lemma_closed_push(p10, ls[10]);
    lemma_closed_push(p11, ls[11]);
    assert(closed_lines(e) == Seq::<char>::empty());
    lemma_pieces_first();
    lemma_pieces_args();
    lemma_pieces_database();
    lemma_pieces_profile();
    lemma_pieces_last();
    assert(snippet_text(o) =~= closed_lines(ls));
}

/// A line whose first character after leading whitespace is `c`.
proof fn lemma_line_starts(l: Seq<char>, k: int, c: char)
    requires
        0 <= k < l.len(),
        forall|i: int| 0 <= i < k ==> is_ws(#[trigger] l[i]),
        l[k] == c,
        !is_ws(c),
        c != '[',
    ensures
        !starts_with(trim(l), "["@),
        forall|h: Seq<char>| h.len() > 0 && h[0] == '[' ==> trim(l) != h,
{
    lemma_trim_first(l, k);
    reveal_strlit("[");
    if starts_with(trim(l), "["@) {
        assert(trim(l).subrange(0, 1)[0] == trim(l)[0]);
    }
}

/// A text with no whitespace at either end is its own trim.
proof fn lemma_trim_noop(h: Seq<char>)
    requires
        h.len() > 0,
        !is_ws(h[0]),
        !is_ws(h.last()),
    ensures
        trim(h) == h,
{
    assert(trim_end(h) == h);
    assert(trim_start(h) == h);
}

/// A line without breaks, after a literal without breaks, has none.
proof fn lemma_no_break_concat(a: Seq<char>, b: Seq<char>)
    requires
        no_break(a),
        no_break(b),
    ensures
        no_break(a + b),
{
    assert forall|i: int| 0 <= i < (a + b).len() implies #[trigger] (a + b)[i] != '\n' && (a + b)[i] != '\r' by {
        if i < a.len() {
            assert((a + b)[i] == a[i]);
        } else {
            assert((a + b)[i] == b[i - a.len()]);
        }
    }
}

/// What the section's lines are like: no line breaks; the header first,
/// its own trim; then lines that open no section.
pub proof fn lemma_snippet_lines(o: InstallOptions)
    requires
        no_break(o.server_name@),
        no_break(o.command_path@),
        no_break(o.project_path@),
        no_break(o.database_path@),
    ensures
        snippet_lines(o).len() == 12,
        forall|i: int| 0 <= i < 12 ==> no_break(#[trigger] snippet_lines(o)[i]),
        snippet_lines(o)[0] == server_header(o.server_name@),
        trim(server_header(o.server_name@)) == server_header(o.server_name@),
        starts_with(server_header(o.server_name@), "["@),
        ends_with(server_header(o.server_name@), "]"@),
        forall|i: int| 1 <= i < 12 ==> trim(#[trigger] snippet_lines(o)[i]) != server_header(o.server_name@)
            && !starts_with(trim(snippet_lines(o)[i]), "["@),
{
    let ls = snippet_lines(o);
    let h = server_header(o.server_name@);
    reveal_strlit("[mcp_servers.");
    reveal_strlit("]");
    reveal_strlit("[");
    reveal_strlit("command = \"");
    reveal_strlit("\"");
    reveal_strlit("args = [");
    reveal_strlit("  \"serve\",");
    reveal_strlit("  \"--project\",");
    reveal_strlit("  \"");
    reveal_strlit("\",");
    reveal_strlit("  \"--database\",");
    reveal_strlit("  \"--profile\",");
    reveal_strlit("enabled = true");
    lemma_escape_no_break(o.command_path@);
    lemma_escape_no_break(o.project_path@);
    lemma_escape_no_break(o.database_path@);
    lemma_profile_no_break(o.profile);
    // no breaks
    lemma_no_break_concat("[mcp_servers."@, o.server_name@);
    lemma_no_break_concat("[mcp_servers."@ + o.server_name@, "]"@);
    lemma_no_break_concat("command = \""@, escape(o.command_path@));
    lemma_no_break_concat("command = \""@ + escape(o.command_path@), "\""@);
    lemma_no_break_concat("  \""@, escape(o.project_path@));
    lemma_no_break_concat("  \""@ + escape(o.project_path@), "\","@);
    lemma_no_break_concat("  \""@, escape(o.database_path@));
    lemma_no_break_concat("  \""@ + escape(o.database_path@), "\","@);
    lemma_no_break_concat("  \""@, profile_text(o.profile));
    lemma_no_break_concat("  \""@ + profile_text(o.profile), "\""@);
    // the header
    assert(h[0] == '[');
    assert(h.last() == ']');
    lemma_trim_noop(h);
    assert(h.subrange(0, 1) =~= "["@);
    assert(h.subrange(h.len() - 1, h.len() as int) =~= "]"@);
    // the other lines
    lemma_line_starts(ls[1], 0, 'c');
    lemma_line_starts(ls[2], 0, 'a');
    lemma_line_starts(ls[3], 2, '"');
    lemma_line_starts(ls[4], 2, '"');
    lemma_line_starts(ls[5], 2, '"');
    lemma_line_starts(ls[6], 2, '"');
    lemma_line_starts(ls[7], 2, '"');
    lemma_line_starts(ls[8], 2, '"');
    lemma_line_starts(ls[9], 2, '"');
    lemma_line_starts(ls[10], 0, ']');
    lemma_line_starts(ls[11], 0, 'e');
}

/// No broken section header among the lines is every trimmed line not
/// being one.
pub proof fn lemma_broken_header_none(ls: Lines)
    ensures
        (broken_header(ls) is None) == trims_ok(ls, |t: Seq<char>| !is_broken_header(t)),
    decreases ls.len(),
{
    if ls.len() > 0 {
        lemma_broken_header_none(ls.drop_first());
        if trims_ok(ls.drop_first(), |t: Seq<char>| !is_broken_header(t)) && !is_broken_header(trim(ls[0])) {
            assert forall|i: int| 0 <= i < ls.len() implies (|t: Seq<char>| !is_broken_header(t))(trim(#[trigger] ls[i])) by {
                if i > 0 {
                    assert(ls[i] == ls.drop_first()[i - 1]);
                }
            }
        }
        if trims_ok(ls, |t: Seq<char>| !is_broken_header(t)) {
            assert(!is_broken_header(trim(ls[0])));
            assert forall|i: int| 0 <= i < ls.drop_first().len() implies (|t: Seq<char>| !is_broken_header(t))(trim(#[trigger] ls.drop_first()[i])) by {
                assert(ls.drop_first()[i] == ls[i + 1]);
            }
        }
    }
}

/// The lines of a text are among its pieces.
proof fn lemma_lines_in_pieces(s: Seq<char>)
    ensures
        lines(s).len() <= pieces(s).len(),
        forall|i: int| 0 <= i < lines(s).len() ==> #[trigger] lines(s)[i] == pieces(s)[i],
{
}

/// What is left of a config once the server's section is taken out,
/// trimmed at the end.
pub open spec fn rest_of(existing: Seq<char>, name: Seq<char>) -> Seq<char> {
    trim_end(without_server(existing, name))
}

/// The rest of a config without carriage returns or broken headers has
/// neither, has no line that is the server's header, and ends in no
/// whitespace.
proof fn lemma_rest_facts(existing: Seq<char>, name: Seq<char>)
    requires
        toml_error(existing) is None,
        no_cr(existing),
    ensures
        no_cr(rest_of(existing, name)),
        trims_ok(lines(rest_of(existing, name)), |t: Seq<char>| t != server_header(name)),
        trims_ok(lines(rest_of(existing, name)), |t: Seq<char>| !is_broken_header(t)),
        trim_end(rest_of(existing, name)) == rest_of(existing, name),
        rest_of(existing, name).len() > 0 ==> !is_ws(rest_of(existing, name).last()),
{
    let h = server_header(name);
    let q1 = |t: Seq<char>| t != h;
    let q2 = |t: Seq<char>| !is_broken_header(t);
    let xl = lines(existing);
    let k = section_scan(xl, h).0;
    reveal_strlit("\n");
    assert("\n"@ =~= seq!['\n']);
    lemma_joined_pieces(existing);
    lemma_lines_in_pieces(existing);
    lemma_broken_header_none(xl);
    lemma_scan_kept(xl, h);
    assert forall|i: int| 0 <= i < k.len() implies no_break(#[trigger] k[i]) && q1(trim(k[i])) && q2(trim(k[i])) by {
        let j = choose|j: int| 0 <= j < xl.len() && xl[j] == k[i];
        assert(xl[j] == pieces(existing)[j]);
        assert(q2(trim(xl[j])));
    }
    lemma_trims_joined(k, q1);
    lemma_trims_joined(k, q2);
    let jn = joined_with(k, seq!['\n']);
    lemma_trims_trim_end(jn, q1);
    lemma_trims_trim_end(jn, q2);
    let w = trim_end(jn);
    assert(without_server(existing, name) == w);
    lemma_trim_end_twice(jn);
    assert(rest_of(existing, name) == w);
    lemma_trim_end_prefix(jn);
}

/// The section skips itself: scanning its lines from outside the section
/// keeps nothing and ends inside it.
proof fn lemma_scan_snippet(kept: Lines, o: InstallOptions)
    requires
        no_break(o.server_name@),
        no_break(o.command_path@),
        no_break(o.project_path@),
        no_break(o.database_path@),
    ensures
        scan_from((kept, false), snippet_lines(o), server_header(o.server_name@)) == (kept, true),
{
    let h = server_header(o.server_name@);
    let ls = snippet_lines(o);
    lemma_snippet_lines(o);
    assert(ls =~= seq![ls[0]] + ls.skip(1));
    lemma_scan_from_concat((kept, false), seq![ls[0]], ls.skip(1), h);
    assert(seq![ls[0]].drop_last() =~= Seq::<Seq<char>>::empty());
    assert(seq![ls[0]].last() == ls[0]);
    assert(scan_from((kept, false), Seq::<Seq<char>>::empty(), h) == (kept, false));
    assert(trim(ls[0]) == h);
    assert(scan_step((kept, false), ls[0], h) == (kept, true));
    assert(scan_from((kept, false), seq![ls[0]], h) == (kept, true));
    assert forall|i: int| 0 <= i < ls.skip(1).len() implies trim(#[trigger] ls.skip(1)[i]) != h
        && !(starts_with(trim(ls.skip(1)[i]), "["@) && ends_with(trim(ls.skip(1)[i]), "]"@)) by {
        assert(ls.skip(1)[i] == ls[i + 1]);
    }
    lemma_scan_skips(kept, ls.skip(1), h);
}

/// None of the section's lines is a broken header.
proof fn lemma_snippet_not_broken(o: InstallOptions)
    requires
        no_break(o.server_name@),
        no_break(o.command_path@),
        no_break(o.project_path@),
        no_break(o.database_path@),
    ensures
        trims_ok(snippet_lines(o), |t: Seq<char>| !is_broken_header(t)),
{
    lemma_snippet_lines(o);
    let ls = snippet_lines(o);
    assert forall|i: int| 0 <= i < ls.len() implies (|t: Seq<char>| !is_broken_header(t))(trim(#[trigger] ls[i])) by {
        if i == 0 {
            assert(trim(ls[0]) == server_header(o.server_name@));
        }
    }
}

/// The lines of the section an install writes.
proof fn lemma_snippet_split(o: InstallOptions)
    requires
        no_break(o.server_name@),
        no_break(o.command_path@),
        no_break(o.project_path@),
        no_break(o.database_path@),
    ensures
        split_nl(snippet_text(o)) == (snippet_lines(o), Seq::<char>::empty()),
        lines(snippet_text(o)) == snippet_lines(o),
{
    lemma_snippet_lines(o);
    lemma_snippet_closed(o);
    lemma_split_closed(snippet_lines(o));
}

/// Installing the server's section into a Codex config a second time
/// gives back the config the first install wrote, and that config can be
/// edited again. This holds of configs without carriage returns and of
/// server names, commands and paths without line breaks.
pub proof fn lemma_codex_update_idempotent(existing: Seq<char>, o: InstallOptions)
    requires
        toml_error(existing) is None,
        no_cr(existing),
        no_break(o.server_name@),
        no_break(o.command_path@),
        no_break(o.project_path@),
        no_break(o.database_path@),
    ensures
        toml_error(updated_codex(existing, o)) is None,
        updated_codex(updated_codex(existing, o), o) == updated_codex(existing, o),
        without_server(updated_codex(existing, o), o.server_name@) == rest_of(existing, o.server_name@),
{
    let name = o.server_name@;
    let h = server_header(name);
    let r = rest_of(existing, name);
    let st = snippet_text(o);
    let ls = snippet_lines(o);
    let u1 = updated_codex(existing, o);
    let nl = seq!['\n'];
    let q2 = |t: Seq<char>| !is_broken_header(t);
    lemma_rest_facts(existing, name);
    lemma_snippet_split(o);
    lemma_snippet_lines(o);
    lemma_snippet_not_broken(o);
    reveal_strlit("\n\n");
    reveal_strlit("\n");
    reveal_strlit("[");
    assert("\n"@ =~= nl);
    if r.len() == 0 {
        assert(u1 =~= st);
        assert(ls =~= Seq::<Seq<char>>::empty() + ls);
        lemma_scan_concat(Seq::<Seq<char>>::empty(), ls, h);
        lemma_scan_snippet(Seq::<Seq<char>>::empty(), o);
        assert(section_scan(lines(u1), h) == (Seq::<Seq<char>>::empty(), true));
        assert(joined_with(Seq::<Seq<char>>::empty(), "\n"@) == Seq::<char>::empty());
        assert(without_server(u1, name) == trim_end(Seq::<char>::empty()));
        assert(rest_of(u1, name) =~= Seq::<char>::empty());
        assert(without_server(u1, name) =~= Seq::<char>::empty());
        lemma_broken_header_none(ls);
    } else {
        assert(u1 =~= (r + nl) + (nl + st));
        // the lines of the rest
        lemma_joined_pieces(r);
        let (d, c) = split_nl(r);
        assert(r.last() != '\n');
        assert(r.drop_last().push(r.last()) =~= r);
        assert(c.len() > 0);
        assert(lines(r) == pieces(r));
        assert(no_break(pieces(r)[pieces(r).len() - 1]));
        assert(c == pieces(r)[pieces(r).len() - 1]);
        assert(c.last() != '\r');
        assert((r + nl).drop_last() =~= r);
        assert(split_nl(r + nl) == (lines(r), Seq::<char>::empty()));
        // the lines after it
        assert(nl.drop_last() =~= Seq::<char>::empty());
        assert(split_nl(Seq::<char>::empty()) == (Seq::<Seq<char>>::empty(), Seq::<char>::empty()));
        assert(strip_cr(Seq::<char>::empty()) == Seq::<char>::empty());
        assert(Seq::<Seq<char>>::empty().push(Seq::<char>::empty()) =~= seq![Seq::<char>::empty()]);
        assert(nl.last() == '\n');
        assert(split_nl(nl) == (seq![Seq::<char>::empty()], Seq::<char>::empty()));
        lemma_split_concat(nl, st);
        lemma_split_concat(r + nl, nl + st);
        let tail = seq![Seq::<char>::empty()] + ls;
        assert(split_nl(u1) == (lines(r) + tail, Seq::<char>::empty()));
        assert(lines(u1) == lines(r) + tail);
        // the scan keeps the rest and the blank line, then skips the section
        assert forall|i: int| 0 <= i < lines(r).len() implies trim(#[trigger] lines(r)[i]) != h by {
            assert((|t: Seq<char>| t != h)(trim(lines(r)[i])));
        }
        lemma_scan_keeps(lines(r), h);
        lemma_scan_concat(lines(r), tail, h);
        lemma_scan_from_concat((lines(r), false), seq![Seq::<char>::empty()], ls, h);
        assert(seq![Seq::<char>::empty()].drop_last() =~= Seq::<Seq<char>>::empty());
        assert(trim(Seq::<char>::empty()) == Seq::<char>::empty());
        assert(h.len() > 0);
        assert(seq![Seq::<char>::empty()].last() == Seq::<char>::empty());
        assert(scan_from((lines(r), false), Seq::<Seq<char>>::empty(), h) == (lines(r), false));
        assert(trim(Seq::<char>::empty()) != h);
        assert(scan_from((lines(r), false), seq![Seq::<char>::empty()], h) == (lines(r).push(Seq::<char>::empty()), false));
        lemma_scan_snippet(lines(r).push(Seq::<char>::empty()), o);
        let kept = lines(r).push(Seq::<char>::empty());
        assert(section_scan(lines(u1), h) == (kept, true));
        // joining what is kept gives the rest back
        assert(kept.drop_last() =~= lines(r));
        assert(joined_with(kept, nl) == joined_with(lines(r), nl) + nl + Seq::<char>::empty());
        assert(joined_with(lines(r), nl) == r);
        assert(joined_with(kept, nl) =~= r + nl);
        lemma_trim_end_ws_suffix(r, nl);
        assert(without_server(u1, name) == r);
        assert(rest_of(u1, name) == r);
        // no broken header in the new config
        lemma_broken_header_none(lines(u1));
        assert forall|i: int| 0 <= i < lines(u1).len() implies q2(trim(#[trigger] lines(u1)[i])) by {
            if i < lines(r).len() {
                assert(lines(u1)[i] == lines(r)[i]);
            } else if i == lines(r).len() {
                assert(lines(u1)[i] == Seq::<char>::empty());
                assert(!starts_with(Seq::<char>::empty(), "["@));
            } else {
                assert(lines(u1)[i] == ls[i - lines(r).len() - 1]);
            }
        }
    }
}

/// Removing the server's section after installing it leaves the config
/// as it was without that section, trailing whitespace trimmed. This holds
/// of the configs and options the second-install law holds of.
pub proof fn lemma_codex_remove_after_install(existing: Seq<char>, o: InstallOptions)
    requires
        toml_error(existing) is None,
        no_cr(existing),
        no_break(o.server_name@),
        no_break(o.command_path@),
        no_break(o.project_path@),
        no_break(o.database_path@),
    ensures
        toml_error(updated_codex(existing, o)) is None,
        without_server(updated_codex(existing, o), o.server_name@) == trim_end(without_server(existing, o.server_name@)),
{
    lemma_codex_update_idempotent(existing, o);
}

} // verus!
