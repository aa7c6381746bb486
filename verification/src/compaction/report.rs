//! The line-level pieces every summary is built from: the combined output
//! lines, capped bullet lists, the byte budget and the key findings.
use vstd::prelude::*;

use crate::text::{
    char_width, chars_of, contains, contains_str, dec, dec_int, has_non_ws, has_non_ws_vec,
    lemma_dec_ascii, lemma_dec_len_usize, lemma_lines_len, lemma_newline_len, lemma_utf8_len_ascii,
    lemma_utf8_len_concat, lines, strings_view, lower, lower_vec, push_chars, push_dec, push_dec_i32,
    push_str, split_lines, dec_string, string_from_chars, trim_end, trim_end_vec, utf8_len, utf8_len_vec,
    vv, Lines,
};

verus! {

broadcast use vstd::string::group_string_axioms;

/// Most files a summary lists.
pub const MAX_FILES: usize = 20;

/// Most snippets a summary lists.
pub const MAX_SNIPPETS: usize = 40;

/// Most key findings reported.
pub const MAX_FINDINGS: usize = 20;

/// Named metadata values of a summary, ordered by name.
pub type Fields = Seq<(Seq<char>, Seq<char>)>;

/// The text of each name and value.
pub open spec fn fields_view(v: Seq<(String, String)>) -> Fields {
    v.map_values(|p: (String, String)| (p.0@, p.1@))
}

/// The first `n` items of `s`, or all of them when there are fewer:
/// what pushing each item with a limit of `n` keeps.
pub open spec fn cap(s: Lines, n: nat) -> Lines {
    if s.len() <= n {
        s
    } else {
        s.take(n as int)
    }
}

/// Each line with its trailing whitespace removed.
pub open spec fn trimmed(ls: Lines) -> Lines {
    ls.map_values(|l: Seq<char>| trim_end(l))
}

/// The lines that hold a character other than whitespace.
pub open spec fn nonblank(ls: Lines) -> Lines {
    ls.filter(|l: Seq<char>| has_non_ws(l))
}

/// The lines a summary reads: stderr's lines, then stdout's, each
/// right-trimmed, blank ones dropped.
pub open spec fn combined(stdout: Seq<char>, stderr: Seq<char>) -> Lines {
    nonblank(trimmed(lines(stderr) + lines(stdout)))
}

/// `"- item"` for each item, joined by newlines.
pub open spec fn bullets(xs: Lines) -> Seq<char>
    decreases xs.len(),
{
    if xs.len() == 0 {
        Seq::empty()
    } else if xs.len() == 1 {
        "- "@ + xs[0]
    } else {
        bullets(xs.drop_last()) + "\n- "@ + xs.last()
    }
}

/// A bullet list of at most `limit` items, with a line counting the rest,
/// or `"- none"` for no items.
pub open spec fn capped_list(items: Lines, limit: nat) -> Seq<char> {
    if items.len() == 0 {
        "- none"@
    } else if items.len() > limit {
        bullets(cap(items, limit)) + "\n- ... omitted "@ + dec((items.len() - limit) as nat)
            + " more"@
    } else {
        bullets(items)
    }
}

/// `"passed"` for a zero or missing exit code, else `"failed"`.
pub open spec fn status_word(exit_code: Option<i32>) -> Seq<char> {
    if exit_code.unwrap_or(0) == 0 {
        "passed"@
    } else {
        "failed"@
    }
}

/// The debug rendering of an optional exit code.
pub open spec fn exit_code_text(exit_code: Option<i32>) -> Seq<char> {
    match exit_code {
        Some(n) => "Some("@ + dec_int(n as int) + ")"@,
        None => "None"@,
    }
}

/// The lines, each followed by a newline.
pub open spec fn joined_lines(ls: Lines) -> Seq<char>
    decreases ls.len(),
{
    if ls.len() == 0 {
        Seq::empty()
    } else {
        joined_lines(ls.drop_last()) + ls.last() + "\n"@
    }
}

/// How many leading lines, each with its newline, fit in `room` bytes.
pub open spec fn fit_count(ls: Lines, room: int) -> nat
    decreases ls.len(),
{
    if ls.len() == 0 {
        0
    } else if utf8_len(ls[0]) + 1 > room {
        0
    } else {
        1 + fit_count(ls.drop_first(), room - utf8_len(ls[0]) - 1)
    }
}

/// The room the kept lines may take: the budget less what the truncation
/// note needs.
pub open spec fn line_room(max_bytes: nat) -> nat {
    if max_bytes >= 80 {
        (max_bytes - 80) as nat
    } else {
        0
    }
}

/// The output cut to the budget: the text, whether it was cut, and how many
/// lines were left out.
pub open spec fn budgeted(output: Seq<char>, max_bytes: nat) -> (Seq<char>, bool, nat) {
    if utf8_len(output) <= max_bytes {
        (output, false, 0)
    } else {
        let ls = lines(output);
        let kept = fit_count(ls, line_room(max_bytes) as int);
        let omitted = (ls.len() - kept) as nat;
        (
            joined_lines(ls.take(kept as int)) + "[truncated: omitted "@ + dec(omitted)
                + " lines]\n"@,
            true,
            omitted,
        )
    }
}

/// A line worth reporting as a key finding: it mentions an error, a
/// failure, a warning or a conflict.
pub open spec fn finding_pred() -> spec_fn(Seq<char>) -> bool {
    |l: Seq<char>|
        {
            let lw = lower(l);
            contains(lw, "error"@) || contains(lw, "failed"@) || contains(lw, "warning"@)
                || contains(lw, "conflict"@)
        }
}

/// The key findings of a compacted output: the non-zero exit code first,
/// then the lines that mention errors, failures, warnings or conflicts, at
/// most twenty in all.
pub open spec fn findings(output: Seq<char>, exit_code: Option<i32>) -> Lines {
    let head: Lines = if exit_code.unwrap_or(0) != 0 {
        seq!["non-zero exit code: "@ + dec_int(exit_code.unwrap_or(0) as int)]
    } else {
        Seq::empty()
    };
    cap(head + lines(output).filter(finding_pred()), MAX_FINDINGS as nat)
}

/// A quarter of the bytes saved, rounded down.
pub open spec fn token_savings(original: nat, compacted: nat) -> nat {
    if original >= compacted {
        ((original - compacted) as nat / 4) as nat
    } else {
        0
    }
}

// ---------------------------------------------------------------------------
// Lemmas
// ---------------------------------------------------------------------------

/// Pushing onto a capped list.
pub proof fn lemma_cap_push(s: Lines, x: Seq<char>, n: nat)
    ensures
        cap(s.push(x), n) == (if s.len() < n {
            s.push(x)
        } else {
            cap(s, n)
        }),
{
    if s.len() >= n {
        assert(s.push(x).take(n as int) =~= cap(s, n));
    }
}

/// One more line through `filter`.
pub proof fn lemma_filter_take(s: Lines, pred: spec_fn(Seq<char>) -> bool, i: int)
    requires
        0 <= i < s.len(),
    ensures
        s.take(i + 1).filter(pred) == (if pred(s[i]) {
            s.take(i).filter(pred).push(s[i])
        } else {
            s.take(i).filter(pred)
        }),
{
    reveal(Seq::filter);
    assert(s.take(i + 1).drop_last() =~= s.take(i));
}

/// A filter keeps no more items than it is given.
pub proof fn lemma_filter_len(s: Lines, pred: spec_fn(Seq<char>) -> bool)
    ensures
        s.filter(pred).len() <= s.len(),
    decreases s.len(),
{
    reveal(Seq::filter);
    if s.len() > 0 {
        lemma_filter_len(s.drop_last(), pred);
    }
}

/// The bytes of lines joined with newlines.
pub proof fn lemma_joined_len(ls: Lines, i: int)
    requires
        0 <= i < ls.len(),
    ensures
        joined_lines(ls.take(i + 1)) == joined_lines(ls.take(i)) + ls[i] + "\n"@,
        utf8_len(joined_lines(ls.take(i + 1))) == utf8_len(joined_lines(ls.take(i))) + utf8_len(
            ls[i],
        ) + 1,
{
    assert(ls.take(i + 1).drop_last() =~= ls.take(i));
    let a = joined_lines(ls.take(i));
    lemma_utf8_len_concat(a, ls[i]);
    lemma_utf8_len_concat(a + ls[i], "\n"@);
    lemma_newline_len();
}

/// What the lines that fit take is within the room given.
pub proof fn lemma_fit_count_room(ls: Lines, room: int)
    requires
        room >= 0,
    ensures
        fit_count(ls, room) <= ls.len(),
        utf8_len(joined_lines(ls.take(fit_count(ls, room) as int))) <= room,
    decreases ls.len(),
{
    let k = fit_count(ls, room);
    if ls.len() == 0 || utf8_len(ls[0]) + 1 > room {
        assert(ls.take(0) =~= Seq::<Seq<char>>::empty());
    } else {
        let rest = ls.drop_first();
        let r2 = room - utf8_len(ls[0]) - 1;
        lemma_fit_count_room(rest, r2);
        lemma_joined_prepend(ls[0], rest.take(fit_count(rest, r2) as int));
        assert(ls.take(k as int) =~= seq![ls[0]] + rest.take(fit_count(rest, r2) as int));
    }
}

/// Joining a line in front of others.
pub proof fn lemma_joined_prepend(x: Seq<char>, rest: Lines)
    ensures
        utf8_len(joined_lines(seq![x] + rest)) == utf8_len(x) + 1 + utf8_len(joined_lines(rest)),
    decreases rest.len(),
{
    lemma_newline_len();
    let s = seq![x] + rest;
    if rest.len() == 0 {
        assert(s.drop_last() =~= Seq::<Seq<char>>::empty());
        assert(s.last() == x);
        assert(joined_lines(s.drop_last()) == Seq::<char>::empty());
        assert(joined_lines(s) == Seq::<char>::empty() + x + "\n"@);
        assert(Seq::<char>::empty() + x =~= x);
        lemma_utf8_len_concat(x, "\n"@);
        assert(joined_lines(rest) == Seq::<char>::empty());
        assert(utf8_len(Seq::<char>::empty()) == 0);
    } else {
        lemma_joined_prepend(x, rest.drop_last());
        assert(s.drop_last() =~= seq![x] + rest.drop_last());
        assert(s.last() == rest.last());
        let a = joined_lines(seq![x] + rest.drop_last());
        assert(joined_lines(s) == a + rest.last() + "\n"@);
        let b = joined_lines(rest.drop_last());
        lemma_utf8_len_concat(a, rest.last());
        lemma_utf8_len_concat(a + rest.last(), "\n"@);
        lemma_utf8_len_concat(b, rest.last());
        lemma_utf8_len_concat(b + rest.last(), "\n"@);
    }
}

/// A cut output fits its budget: once a budget leaves room for the
/// truncation note, the text `enforce_budget` returns never takes more than
/// `max_bytes` bytes.
pub proof fn lemma_budget_respected(output: Seq<char>, max_bytes: nat)
    requires
        max_bytes >= 128,
        output.len() <= usize::MAX,
    ensures
        utf8_len(budgeted(output, max_bytes).0) <= max_bytes,
{
    if utf8_len(output) > max_bytes {
        let ls = lines(output);
        let room = line_room(max_bytes) as int;
        let kept = fit_count(ls, room);
        let omitted = (ls.len() - kept) as nat;
        lemma_fit_count_room(ls, room);
        lemma_lines_len(output);
        lemma_dec_len_usize(omitted);
        lemma_dec_ascii(omitted);
        lemma_utf8_len_ascii(dec(omitted));
        let head = "[truncated: omitted "@;
        let tail = " lines]\n"@;
        reveal_strlit("[truncated: omitted ");
        reveal_strlit(" lines]\n");
        lemma_utf8_len_ascii(head);
        lemma_utf8_len_ascii(tail);
        let body = joined_lines(ls.take(kept as int));
        lemma_utf8_len_concat(body, head);
        lemma_utf8_len_concat(body + head, dec(omitted));
        lemma_utf8_len_concat(body + head + dec(omitted), tail);
    }
}

// ---------------------------------------------------------------------------
// Executable pieces
// ---------------------------------------------------------------------------

/// Appends `item` unless `items` already holds `limit` of them.
pub fn push_capped(items: &mut Vec<Vec<char>>, item: Vec<char>, limit: usize)
    ensures
        vv(final(items)@) == (if old(items)@.len() < limit {
            vv(old(items)@).push(item@)
        } else {
            vv(old(items)@)
        }),
{
    if items.len() < limit {
        let ghost before = vv(items@);
        let ghost it = item@;
        items.push(item);
        assert(vv(items@) =~= before.push(it));
    }
}

/// One more line through `trimmed` and `nonblank`.
pub proof fn lemma_nonblank_push(s: Lines, x: Seq<char>)
    ensures
        nonblank(trimmed(s.push(x))) == (if has_non_ws(trim_end(x)) {
            nonblank(trimmed(s)).push(trim_end(x))
        } else {
            nonblank(trimmed(s))
        }),
{
    assert(trimmed(s.push(x)) =~= trimmed(s).push(trim_end(x)));
    reveal(Seq::filter);
    assert(trimmed(s).push(trim_end(x)).drop_last() =~= trimmed(s));
}

/// Appends the right-trimmed, non-blank lines of `ls` to `r`.
fn push_nonblank(r: &mut Vec<Vec<char>>, ls: &Vec<Vec<char>>, Ghost(prefix): Ghost<Lines>)
    requires
        vv(old(r)@) == nonblank(trimmed(prefix)),
    ensures
        vv(final(r)@) == nonblank(trimmed(prefix + vv(ls@))),
{
    let ghost lv = vv(ls@);
    let mut i: usize = 0;
    assert(prefix + lv.take(0) =~= prefix);
    while i < ls.len()
        invariant
            lv == vv(ls@),
            i <= ls.len(),
            vv(r@) == nonblank(trimmed(prefix + lv.take(i as int))),
        decreases ls.len() - i,
    {
        assert(lv[i as int] == ls@[i as int]@);
        assert(prefix + lv.take(i + 1) =~= (prefix + lv.take(i as int)).push(lv[i as int]));
        proof {
            lemma_nonblank_push(prefix + lv.take(i as int), lv[i as int]);
        }
        let t = trim_end_vec(&ls[i]);
        if has_non_ws_vec(&t) {
            let ghost before = vv(r@);
            let ghost tv = t@;
            r.push(t);
            assert(vv(r@) =~= before.push(tv));
        }
        i += 1;
    }
    assert(lv.take(i as int) =~= lv);
}

/// A metadata entry: a name and a count.
pub fn count_field(name: &str, n: usize) -> (r: (String, String))
    ensures
        r.0@ == name@,
        r.1@ == dec(n as nat),
{
    (name.to_owned(), dec_string(n))
}

/// Offers the `i`-th line of `ls` to a list that keeps, up to `limit`, the
/// lines `pred` accepts.
pub(crate) fn push_selected(
    items: &mut Vec<Vec<char>>,
    line: &Vec<char>,
    keep: bool,
    limit: usize,
    Ghost(ls): Ghost<Lines>,
    Ghost(i): Ghost<int>,
    Ghost(pred): Ghost<spec_fn(Seq<char>) -> bool>,
)
    requires
        0 <= i < ls.len(),
        line@ == ls[i],
        keep == pred(ls[i]),
        vv(old(items)@) == cap(ls.take(i).filter(pred), limit as nat),
    ensures
        vv(final(items)@) == cap(ls.take(i + 1).filter(pred), limit as nat),
{
    proof {
        lemma_filter_take(ls, pred, i);
        lemma_cap_push(ls.take(i).filter(pred), ls[i], limit as nat);
    }
    if keep {
        push_capped(items, line.clone(), limit);
    }
}

/// The lines of stderr and then stdout, right-trimmed, blank ones dropped.
pub fn combined_lines(stdout: &str, stderr: &str) -> (r: Vec<Vec<char>>)
    ensures
        vv(r@) == combined(stdout@, stderr@),
{
    let err_lines = split_lines(&chars_of(stderr));
    let out_lines = split_lines(&chars_of(stdout));
    let mut r: Vec<Vec<char>> = Vec::new();
    proof {
        reveal(Seq::filter);
        assert(vv(r@) =~= nonblank(trimmed(Seq::<Seq<char>>::empty())));
    }
    push_nonblank(&mut r, &err_lines, Ghost(Seq::empty()));
    assert(Seq::<Seq<char>>::empty() + vv(err_lines@) =~= vv(err_lines@));
    push_nonblank(&mut r, &out_lines, Ghost(vv(err_lines@)));
    r
}

/// `"- item"` lines for the items, at most `limit`, with a count of the rest.
pub fn capped_list_text(out: &mut Vec<char>, items: &Vec<Vec<char>>, limit: usize)
    ensures
        final(out)@ == old(out)@ + capped_list(vv(items@), limit as nat),
{
    let ghost xs = vv(items@);
    if items.len() == 0 {
        push_str(out, "- none");
        return;
    }
    let n: usize = if items.len() <= limit {
        items.len()
    } else {
        limit
    };
    let ghost start = out@;
    let mut i: usize = 0;
    while i < n
        invariant
            xs == vv(items@),
            n <= items.len(),
            n == cap(xs, limit as nat).len(),
            i <= n,
            out@ == start + bullets(xs.take(i as int)),
        decreases n - i,
    {
        assert(xs.take(i + 1).drop_last() =~= xs.take(i as int));
        if i == 0 {
            push_str(out, "- ");
        } else {
            push_str(out, "\n- ");
        }
        push_chars(out, &items[i]);
        i += 1;
        assert(out@ =~= start + bullets(xs.take(i as int)));
    }
    assert(xs.take(n as int) =~= cap(xs, limit as nat));
    if items.len() > limit {
        push_str(out, "\n- ... omitted ");
        push_dec(out, items.len() - limit);
        push_str(out, " more");
    }
    assert(out@ =~= start + capped_list(xs, limit as nat));
}

/// `"passed"` or `"failed"`, as the exit code says.
pub fn push_status_word(out: &mut Vec<char>, exit_code: Option<i32>)
    ensures
        final(out)@ == old(out)@ + status_word(exit_code),
{
    let code: i32 = match exit_code {
        Some(c) => c,
        None => 0,
    };
    if code == 0 {
        push_str(out, "passed");
    } else {
        push_str(out, "failed");
    }
}

/// The debug rendering of an optional exit code.
pub fn push_exit_code_text(out: &mut Vec<char>, exit_code: Option<i32>)
    ensures
        final(out)@ == old(out)@ + exit_code_text(exit_code),
{
    match exit_code {
        Some(n) => {
            let ghost start = out@;
            push_str(out, "Some(");
            push_dec_i32(out, n);
            push_str(out, ")");
            assert(out@ =~= start + exit_code_text(exit_code));
        },
        None => {
            push_str(out, "None");
        },
    }
}

/// Whether the UTF-8 encoding of `s` takes at most `limit` bytes.
pub fn fits_within(s: &Vec<char>, limit: usize) -> (r: bool)
    ensures
        r == (utf8_len(s@) <= limit),
{
    let mut total: usize = 0;
    let mut i: usize = 0;
    while i < s.len()
        invariant
            i <= s.len(),
            total == utf8_len(s@.take(i as int)),
            total <= limit,
        decreases s.len() - i,
    {
        assert(s@.take(i + 1).drop_last() =~= s@.take(i as int));
        let w: usize = if (s[i] as u32) < 0x80 {
            1
        } else if (s[i] as u32) < 0x800 {
            2
        } else if (s[i] as u32) < 0x10000 {
            3
        } else {
            4
        };
        assert(w == char_width(s@[i as int]));
        if w > limit - total {
            proof {
                lemma_utf8_len_concat(s@.take(i + 1), s@.skip(i + 1));
                assert(s@.take(i + 1) + s@.skip(i + 1) =~= s@);
            }
            return false;
        }
        total = total + w;
        i += 1;
    }
    assert(s@.take(i as int) =~= s@);
    true
}

/// Cuts the output to `max_bytes`: the kept lines and a note counting the
/// rest. Returns the text, whether it was cut, and how many lines were cut.
pub fn enforce_budget(output: Vec<char>, max_bytes: usize) -> (r: (Vec<char>, bool, usize))
    ensures
        (r.0@, r.1, r.2 as nat) == budgeted(output@, max_bytes as nat),
{
    if fits_within(&output, max_bytes) {
        return (output, false, 0);
    }
    let ls = split_lines(&output);
    let ghost lv = vv(ls@);
    let room: usize = if max_bytes >= 80 {
        max_bytes - 80
    } else {
        0
    };
    let mut compacted: Vec<char> = Vec::new();
    let mut acc: usize = 0;
    let mut kept: usize = 0;
    assert(lv.skip(0) =~= lv);
    while kept < ls.len()
        invariant_except_break
            lv == vv(ls@),
            kept <= ls.len(),
            acc <= room,
            room == line_room(max_bytes as nat),
            compacted@ == joined_lines(lv.take(kept as int)),
            acc == utf8_len(compacted@),
            fit_count(lv, room as int) == kept + fit_count(lv.skip(kept as int), room - acc),
        ensures
            lv == vv(ls@),
            kept <= ls.len(),
            compacted@ == joined_lines(lv.take(kept as int)),
            fit_count(lv, room as int) == kept,
        decreases ls.len() - kept,
    {
        let line = &ls[kept];
        assert(lv.skip(kept as int)[0] == line@);
        if room - acc == 0 || !fits_within(line, room - acc - 1) {
            break;
        }
        let w = utf8_len_vec(line);
        proof {
            lemma_joined_len(lv, kept as int);
            assert(lv.skip(kept as int).drop_first() =~= lv.skip(kept + 1));
        }
        push_chars(&mut compacted, line);
        compacted.push('\n');
        proof {
            lemma_newline_len();
        }
        acc = acc + w + 1;
        kept += 1;
        assert(compacted@ =~= joined_lines(lv.take(kept as int)));
    }
    let omitted = ls.len() - kept;
    let ghost body = compacted@;
    push_str(&mut compacted, "[truncated: omitted ");
    push_dec(&mut compacted, omitted);
    push_str(&mut compacted, " lines]\n");
    assert(compacted@ =~= budgeted(output@, max_bytes as nat).0);
    (compacted, true, omitted)
}

/// Whether a line is worth reporting as a key finding.
pub fn is_finding_line(line: &Vec<char>) -> (r: bool)
    ensures
        r == finding_pred()(line@),
{
    let lw = lower_vec(line);
    contains_str(&lw, "error") || contains_str(&lw, "failed") || contains_str(&lw, "warning")
        || contains_str(&lw, "conflict")
}

/// The key findings of a compacted output.
pub fn key_findings(output: &Vec<char>, exit_code: Option<i32>) -> (r: Vec<String>)
    ensures
        strings_view(r@) == findings(output@, exit_code),
{
    let mut found: Vec<Vec<char>> = Vec::new();
    let code: i32 = match exit_code {
        Some(c) => c,
        None => 0,
    };
    if code != 0 {
        let mut first: Vec<char> = Vec::new();
        push_str(&mut first, "non-zero exit code: ");
        push_dec_i32(&mut first, code);
        found.push(first);
    }
    let ghost head = vv(found@);
    assert(head.len() <= 1);
    let ls = split_lines(output);
    let ghost lv = vv(ls@);
    let mut i: usize = 0;
    while i < ls.len()
        invariant
            lv == vv(ls@),
            i <= ls.len(),
            head.len() <= 1,
            vv(found@) == cap(head + lv.take(i as int).filter(finding_pred()), MAX_FINDINGS as nat),
        decreases ls.len() - i,
    {
        assert(lv[i as int] == ls@[i as int]@);
        proof {
            lemma_filter_take(lv, finding_pred(), i as int);
            let before = head + lv.take(i as int).filter(finding_pred());
            lemma_cap_push(before, lv[i as int], MAX_FINDINGS as nat);
            assert(head + lv.take(i as int).filter(finding_pred()).push(lv[i as int]) =~= before.push(
                lv[i as int],
            ));
            if before.len() >= MAX_FINDINGS {
                assert(cap(before, MAX_FINDINGS as nat).len() == MAX_FINDINGS);
            } else {
                assert(cap(before, MAX_FINDINGS as nat) == before);
            }
        }
        let ghost before = head + lv.take(i as int).filter(finding_pred());
        if is_finding_line(&ls[i]) {
            let item = ls[i].clone();
            assert(item@ == lv[i as int]);
            assert(finding_pred()(lv[i as int]));
            push_capped(&mut found, item, MAX_FINDINGS);
            assert(head + lv.take(i + 1).filter(finding_pred()) == before.push(lv[i as int]));
        } else {
            assert(!finding_pred()(lv[i as int]));
            assert(head + lv.take(i + 1).filter(finding_pred()) == before);
        }
        i += 1;
    }
    assert(lv.take(ls.len() as int) =~= lv);
    let mut r: Vec<String> = Vec::new();
    let mut j: usize = 0;
    while j < found.len()
        invariant
            j <= found.len(),
            strings_view(r@) == vv(found@).take(j as int),
        decreases found.len() - j,
    {
        let s = string_from_chars(&found[j]);
        let ghost before = strings_view(r@);
        assert(vv(found@)[j as int] == found@[j as int]@);
        r.push(s);
        assert(strings_view(r@) =~= before.push(found@[j as int]@));
        j += 1;
        assert(strings_view(r@) =~= vv(found@).take(j as int));
    }
    assert(vv(found@).take(j as int) =~= vv(found@));
    r
}

/// A quarter of the bytes saved, rounded down.
pub fn estimate_token_savings(original_bytes: usize, compacted_bytes: usize) -> (r: usize)
    ensures
        r == token_savings(original_bytes as nat, compacted_bytes as nat),
{
    original_bytes.saturating_sub(compacted_bytes) / 4
}

} // verus!
