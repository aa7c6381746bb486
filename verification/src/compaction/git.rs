//! Summaries of `git status` and `git diff` output.
use vstd::prelude::*;

use crate::compaction::report::{cap, capped_list, capped_list_text, count_field, fields_view, push_selected, Fields, MAX_FILES, MAX_SNIPPETS};
use crate::line_set::{insert_sorted, lemma_sorted_items, sorted_items, strictly_sorted};
use crate::text::{
    contains, contains_str, dec, has_char, has_char_vec, push_chars, push_dec, push_str,
    starts_with, starts_with_str, trim, trim_vec, vv, Lines,
};

verus! {

broadcast use vstd::string::group_string_axioms;

/// The part of `git status` output a line belongs to.
#[derive(Clone, Copy, PartialEq, Eq, Structural)]
pub enum StatusSection {
    Other,
    Staged,
    Unstaged,
    Untracked,
    Conflicts,
}

/// The section a heading line opens, if it is one.
pub open spec fn heading_section(t: Seq<char>) -> Option<StatusSection> {
    if contains(t, "Changes to be committed"@) {
        Some(StatusSection::Staged)
    } else if contains(t, "Changes not staged"@) {
        Some(StatusSection::Unstaged)
    } else if contains(t, "Untracked files"@) {
        Some(StatusSection::Untracked)
    } else if contains(t, "Unmerged paths"@) || contains(t, "both modified"@) {
        Some(StatusSection::Conflicts)
    } else {
        None
    }
}

/// A line saying "Changes to be committed" opens the staged section.
pub proof fn lemma_staged_heading(t: Seq<char>)
    requires
        contains(t, "Changes to be committed"@),
    ensures
        heading_section(t) == Some(StatusSection::Staged),
{
}

/// A line saying "Changes not staged" (and not "Changes to be committed")
/// opens the unstaged section.
pub proof fn lemma_not_staged_heading(t: Seq<char>)
    requires
        contains(t, "Changes not staged"@),
        !contains(t, "Changes to be committed"@),
    ensures
        heading_section(t) == Some(StatusSection::Unstaged),
{
}

/// A line saying "Untracked files" (and neither earlier heading) opens the
/// untracked section.
pub proof fn lemma_untracked_heading(t: Seq<char>)
    requires
        contains(t, "Untracked files"@),
        !contains(t, "Changes to be committed"@),
        !contains(t, "Changes not staged"@),
    ensures
        heading_section(t) == Some(StatusSection::Untracked),
{
}

/// A line saying "Unmerged paths" or "both modified" (and no earlier
/// heading) opens the conflicts section.
pub proof fn lemma_conflicts_heading(t: Seq<char>)
    requires
        contains(t, "Unmerged paths"@) || contains(t, "both modified"@),
        !contains(t, "Changes to be committed"@),
        !contains(t, "Changes not staged"@),
        !contains(t, "Untracked files"@),
    ensures
        heading_section(t) == Some(StatusSection::Conflicts),
{
}

/// A line with none of the heading phrases opens no section.
pub proof fn lemma_no_heading(t: Seq<char>)
    requires
        !contains(t, "Changes to be committed"@),
        !contains(t, "Changes not staged"@),
        !contains(t, "Untracked files"@),
        !contains(t, "Unmerged paths"@),
        !contains(t, "both modified"@),
    ensures
        heading_section(t) is None,
{
}

/// A trimmed line that names a file.
pub open spec fn is_fileish(t: Seq<char>) -> bool {
    ||| has_char(t, '/')
    ||| has_char(t, '\\')
    ||| contains(t, ".rs"@)
    ||| contains(t, ".ts"@)
    ||| contains(t, ".js"@)
    ||| contains(t, ".md"@)
    ||| starts_with(t, "modified:"@)
    ||| starts_with(t, "new file:"@)
    ||| starts_with(t, "deleted:"@)
}

/// What a status scan has seen: the open section and the staged, unstaged,
/// untracked and conflicting entries.
pub type StatusState = (StatusSection, Lines, Lines, Lines, Lines);

/// The scan after one more line.
pub open spec fn status_step(st: StatusState, line: Seq<char>) -> StatusState {
    let t = trim(line);
    match heading_section(t) {
        Some(sec) => (sec, st.1, st.2, st.3, st.4),
        None => if is_fileish(t) {
            match st.0 {
                StatusSection::Staged => (st.0, st.1.push(t), st.2, st.3, st.4),
                StatusSection::Unstaged => (st.0, st.1, st.2.push(t), st.3, st.4),
                StatusSection::Untracked => (st.0, st.1, st.2, st.3.push(t), st.4),
                StatusSection::Conflicts => (st.0, st.1, st.2, st.3, st.4.push(t)),
                StatusSection::Other => st,
            }
        } else {
            st
        },
    }
}

/// The scan over all lines.
pub open spec fn status_scan(ls: Lines) -> StatusState
    decreases ls.len(),
{
    if ls.len() == 0 {
        (StatusSection::Other, Seq::empty(), Seq::empty(), Seq::empty(), Seq::empty())
    } else {
        status_step(status_scan(ls.drop_last()), ls.last())
    }
}

/// A file line right after a "Changes not staged" heading is counted as
/// unstaged: it is added to the unstaged entries, and the staged, untracked
/// and conflicting entries stay as they were.
pub proof fn lemma_file_after_not_staged_is_unstaged(ls: Lines, h: Seq<char>, l: Seq<char>)
    requires
        contains(trim(h), "Changes not staged"@),
        !contains(trim(h), "Changes to be committed"@),
        heading_section(trim(l)) is None,
        is_fileish(trim(l)),
    ensures
        ({
            let before = status_scan(ls);
            let after = status_scan(ls.push(h).push(l));
            &&& after.0 == StatusSection::Unstaged
            &&& after.2 == before.2.push(trim(l))
            &&& after.1 == before.1
            &&& after.3 == before.3
            &&& after.4 == before.4
        }),
{
    lemma_not_staged_heading(trim(h));
    assert(ls.push(h).push(l).drop_last() =~= ls.push(h));
    assert(ls.push(h).drop_last() =~= ls);
    assert(status_scan(ls.push(h)) == status_step(status_scan(ls), h));
    assert(status_scan(ls.push(h).push(l)) == status_step(status_scan(ls.push(h)), l));
}

/// The line naming the branch.
pub open spec fn is_branch_line(l: Seq<char>) -> bool {
    starts_with(l, "On branch "@) || starts_with(l, "## "@)
}

/// The first branch line, or `"branch: unknown"`.
pub open spec fn branch_of(ls: Lines) -> Seq<char>
    decreases ls.len(),
{
    if ls.len() == 0 {
        "branch: unknown"@
    } else if is_branch_line(ls[0]) {
        ls[0]
    } else {
        branch_of(ls.drop_first())
    }
}

/// The summary of `git status` output.
pub open spec fn git_status_body(ls: Lines) -> Seq<char> {
    let st = status_scan(ls);
    "git status summary\n"@ + branch_of(ls) + "\nstaged: "@ + dec(st.1.len()) + "\n"@
        + capped_list(st.1, MAX_FILES as nat) + "\nunstaged: "@ + dec(st.2.len()) + "\n"@
        + capped_list(st.2, MAX_FILES as nat) + "\nuntracked: "@ + dec(st.3.len()) + "\n"@
        + capped_list(st.3, MAX_FILES as nat) + "\nconflicts: "@ + dec(st.4.len()) + "\n"@
        + capped_list(st.4, MAX_FILES as nat)
}

/// The metadata of a `git status` summary.
pub open spec fn git_status_fields(ls: Lines) -> Fields {
    let st = status_scan(ls);
    seq![
        ("conflict_count"@, dec(st.4.len())),
        ("staged_count"@, dec(st.1.len())),
        ("unstaged_count"@, dec(st.2.len())),
        ("untracked_count"@, dec(st.3.len())),
    ]
}

/// What kind of line of `git diff` output a line is.
#[derive(Clone, Copy, PartialEq, Eq, Structural)]
pub enum DiffLine {
    FileHeader,
    FileMarker,
    Hunk,
    Binary,
    Added,
    Deleted,
    Other,
}

pub open spec fn diff_line(l: Seq<char>) -> DiffLine {
    if starts_with(l, "diff --git "@) {
        DiffLine::FileHeader
    } else if starts_with(l, "+++ "@) || starts_with(l, "--- "@) {
        DiffLine::FileMarker
    } else if starts_with(l, "@@"@) {
        DiffLine::Hunk
    } else if starts_with(l, "Binary files"@) {
        DiffLine::Binary
    } else if starts_with(l, "+"@) && !starts_with(l, "+++"@) {
        DiffLine::Added
    } else if starts_with(l, "-"@) && !starts_with(l, "---"@) {
        DiffLine::Deleted
    } else {
        DiffLine::Other
    }
}

/// How many lines are of kind `k`.
pub open spec fn count_kind(ls: Lines, k: DiffLine) -> nat
    decreases ls.len(),
{
    if ls.len() == 0 {
        0
    } else {
        count_kind(ls.drop_last(), k) + if diff_line(ls.last()) == k {
            1nat
        } else {
            0nat
        }
    }
}

/// The files a diff names: the text after `"diff --git "` of each header,
/// and each `+++`/`---` marker line whole.
pub open spec fn diff_files(ls: Lines) -> Set<Seq<char>>
    decreases ls.len(),
{
    if ls.len() == 0 {
        Set::empty()
    } else {
        let l = ls.last();
        let s = diff_files(ls.drop_last());
        match diff_line(l) {
            DiffLine::FileHeader => s.insert(l.skip(11)),
            DiffLine::FileMarker => s.insert(l),
            _ => s,
        }
    }
}

/// An added or deleted line.
pub open spec fn change_pred() -> spec_fn(Seq<char>) -> bool {
    |l: Seq<char>| diff_line(l) == DiffLine::Added || diff_line(l) == DiffLine::Deleted
}

/// The summary of `git diff` output.
pub open spec fn git_diff_body(ls: Lines) -> Seq<char> {
    let files = sorted_items(diff_files(ls));
    "git diff summary\nfiles_changed: "@ + dec(files.len()) + "\nadded_lines: "@ + dec(
        count_kind(ls, DiffLine::Added),
    ) + "\ndeleted_lines: "@ + dec(count_kind(ls, DiffLine::Deleted)) + "\nbinary_files: "@ + dec(
        count_kind(ls, DiffLine::Binary),
    ) + "\nhunks: "@ + dec(count_kind(ls, DiffLine::Hunk)) + "\nfiles:\n"@ + capped_list(
        files,
        MAX_FILES as nat,
    ) + "\nimportant snippets:\n"@ + capped_list(
        cap(ls.filter(change_pred()), MAX_SNIPPETS as nat),
        MAX_SNIPPETS as nat,
    )
}

/// The metadata of a `git diff` summary.
pub open spec fn git_diff_fields(ls: Lines) -> Fields {
    seq![
        ("added"@, dec(count_kind(ls, DiffLine::Added))),
        ("deleted"@, dec(count_kind(ls, DiffLine::Deleted))),
        ("files"@, dec(sorted_items(diff_files(ls)).len())),
    ]
}

// ---------------------------------------------------------------------------
// git status
// ---------------------------------------------------------------------------

fn heading_section_exec(t: &Vec<char>) -> (r: Option<StatusSection>)
    ensures
        r == heading_section(t@),
{
    if contains_str(t, "Changes to be committed") {
        Some(StatusSection::Staged)
    } else if contains_str(t, "Changes not staged") {
        Some(StatusSection::Unstaged)
    } else if contains_str(t, "Untracked files") {
        Some(StatusSection::Untracked)
    } else if contains_str(t, "Unmerged paths") || contains_str(t, "both modified") {
        Some(StatusSection::Conflicts)
    } else {
        None
    }
}

/// Whether a trimmed line names a file.
pub fn is_fileish_line(t: &Vec<char>) -> (r: bool)
    ensures
        r == is_fileish(t@),
{
    has_char_vec(t, '/') || has_char_vec(t, '\\') || contains_str(t, ".rs") || contains_str(t, ".ts")
        || contains_str(t, ".js") || contains_str(t, ".md") || starts_with_str(t, "modified:")
        || starts_with_str(t, "new file:") || starts_with_str(t, "deleted:")
}

fn push_line(v: &mut Vec<Vec<char>>, t: Vec<char>)
    ensures
        vv(final(v)@) == vv(old(v)@).push(t@),
{
    let ghost before = vv(v@);
    let ghost tv = t@;
    v.push(t);
    assert(vv(v@) =~= before.push(tv));
}

fn branch_line(ls: &Vec<Vec<char>>) -> (r: Vec<char>)
    ensures
        r@ == branch_of(vv(ls@)),
{
    let ghost lv = vv(ls@);
    let mut i: usize = 0;
    assert(lv.skip(0) =~= lv);
    while i < ls.len()
        invariant
            lv == vv(ls@),
            i <= ls.len(),
            branch_of(lv) == branch_of(lv.skip(i as int)),
        decreases ls.len() - i,
    {
        assert(lv.skip(i as int)[0] == ls@[i as int]@);
        if starts_with_str(&ls[i], "On branch ") || starts_with_str(&ls[i], "## ") {
            return ls[i].clone();
        }
        assert(lv.skip(i as int).drop_first() =~= lv.skip(i + 1));
        i += 1;
    }
    let mut r: Vec<char> = Vec::new();
    push_str(&mut r, "branch: unknown");
    r
}

/// Summarises `git status` output: the branch, and the staged, unstaged,
/// untracked and conflicting entries.
pub fn compact_git_status(ls: &Vec<Vec<char>>) -> (r: (Vec<char>, Vec<(String, String)>))
    ensures
        r.0@ == git_status_body(vv(ls@)),
        fields_view(r.1@) == git_status_fields(vv(ls@)),
{
    let ghost lv = vv(ls@);
    let mut section = StatusSection::Other;
    let mut staged: Vec<Vec<char>> = Vec::new();
    let mut unstaged: Vec<Vec<char>> = Vec::new();
    let mut untracked: Vec<Vec<char>> = Vec::new();
    let mut conflicts: Vec<Vec<char>> = Vec::new();
    let mut i: usize = 0;
    assert(vv(staged@) =~= Seq::<Seq<char>>::empty());
    assert(vv(unstaged@) =~= Seq::<Seq<char>>::empty());
    assert(vv(untracked@) =~= Seq::<Seq<char>>::empty());
    assert(vv(conflicts@) =~= Seq::<Seq<char>>::empty());
    while i < ls.len()
        invariant
            lv == vv(ls@),
            i <= ls.len(),
            status_scan(lv.take(i as int)) == (
                section,
                vv(staged@),
                vv(unstaged@),
                vv(untracked@),
                vv(conflicts@),
            ),
        decreases ls.len() - i,
    {
        assert(lv.take(i + 1).drop_last() =~= lv.take(i as int));
        assert(lv[i as int] == ls@[i as int]@);
        let t = trim_vec(&ls[i]);
        match heading_section_exec(&t) {
            Some(sec) => {
                section = sec;
            },
            None => {
                if is_fileish_line(&t) {
                    match section {
                        StatusSection::Staged => push_line(&mut staged, t),
                        StatusSection::Unstaged => push_line(&mut unstaged, t),
                        StatusSection::Untracked => push_line(&mut untracked, t),
                        StatusSection::Conflicts => push_line(&mut conflicts, t),
                        StatusSection::Other => {},
                    }
                }
            },
        }
        i += 1;
    }
    assert(lv.take(i as int) =~= lv);
    let mut out: Vec<char> = Vec::new();
    push_str(&mut out, "git status summary\n");
    let branch = branch_line(ls);
    push_chars(&mut out, &branch);
    push_str(&mut out, "\nstaged: ");
    push_dec(&mut out, staged.len());
    push_str(&mut out, "\n");
    capped_list_text(&mut out, &staged, MAX_FILES);
    push_str(&mut out, "\nunstaged: ");
    push_dec(&mut out, unstaged.len());
    push_str(&mut out, "\n");
    capped_list_text(&mut out, &unstaged, MAX_FILES);
    push_str(&mut out, "\nuntracked: ");
    push_dec(&mut out, untracked.len());
    push_str(&mut out, "\n");
    capped_list_text(&mut out, &untracked, MAX_FILES);
    push_str(&mut out, "\nconflicts: ");
    push_dec(&mut out, conflicts.len());
    push_str(&mut out, "\n");
    capped_list_text(&mut out, &conflicts, MAX_FILES);
    assert(out@ =~= git_status_body(lv));
    let fields = vec![
        count_field("conflict_count", conflicts.len()),
        count_field("staged_count", staged.len()),
        count_field("unstaged_count", unstaged.len()),
        count_field("untracked_count", untracked.len()),
    ];
    assert(fields_view(fields@) =~= git_status_fields(lv));
    (out, fields)
}

// ---------------------------------------------------------------------------
// git diff
// ---------------------------------------------------------------------------

fn diff_line_exec(l: &Vec<char>) -> (r: DiffLine)
    ensures
        r == diff_line(l@),
{
    if starts_with_str(l, "diff --git ") {
        DiffLine::FileHeader
    } else if starts_with_str(l, "+++ ") || starts_with_str(l, "--- ") {
        DiffLine::FileMarker
    } else if starts_with_str(l, "@@") {
        DiffLine::Hunk
    } else if starts_with_str(l, "Binary files") {
        DiffLine::Binary
    } else if starts_with_str(l, "+") && !starts_with_str(l, "+++") {
        DiffLine::Added
    } else if starts_with_str(l, "-") && !starts_with_str(l, "---") {
        DiffLine::Deleted
    } else {
        DiffLine::Other
    }
}

/// The characters of `l` from index `k` on.
fn suffix_from(l: &Vec<char>, k: usize) -> (r: Vec<char>)
    requires
        k <= l.len(),
    ensures
        r@ == l@.skip(k as int),
{
    let mut r: Vec<char> = Vec::new();
    let mut i: usize = k;
    while i < l.len()
        invariant
            k <= i <= l.len(),
            r@ == l@.subrange(k as int, i as int),
        decreases l.len() - i,
    {
        r.push(l[i]);
        i += 1;
        assert(r@ =~= l@.subrange(k as int, i as int));
    }
    r
}

proof fn lemma_count_kind_step(ls: Lines, k: DiffLine, i: int)
    requires
        0 <= i < ls.len(),
    ensures
        count_kind(ls.take(i + 1), k) == count_kind(ls.take(i), k) + if diff_line(ls[i]) == k {
            1nat
        } else {
            0nat
        },
        count_kind(ls.take(i), k) <= i,
    decreases i,
{
    assert(ls.take(i + 1).drop_last() =~= ls.take(i));
    if i > 0 {
        lemma_count_kind_step(ls, k, i - 1);
    } else {
        assert(ls.take(0) =~= Seq::<Seq<char>>::empty());
    }
}

/// Summarises `git diff` output: the files touched, line counts, hunks and
/// the first changed lines.
pub fn compact_git_diff(ls: &Vec<Vec<char>>) -> (r: (Vec<char>, Vec<(String, String)>))
    ensures
        r.0@ == git_diff_body(vv(ls@)),
        fields_view(r.1@) == git_diff_fields(vv(ls@)),
{
    let ghost lv = vv(ls@);
    let mut files: Vec<Vec<char>> = Vec::new();
    let mut snippets: Vec<Vec<char>> = Vec::new();
    let mut hunks: usize = 0;
    let mut added: usize = 0;
    let mut deleted: usize = 0;
    let mut binary: usize = 0;
    let mut i: usize = 0;
    proof {
        reveal(Seq::filter);
        assert(lv.take(0) =~= Seq::<Seq<char>>::empty());
        assert(vv(files@) =~= Seq::<Seq<char>>::empty());
        assert(vv(files@).to_set() =~= Set::<Seq<char>>::empty());
        assert(vv(snippets@) =~= cap(lv.take(0).filter(change_pred()), MAX_SNIPPETS as nat));
    }
    while i < ls.len()
        invariant
            lv == vv(ls@),
            i <= ls.len(),
            strictly_sorted(vv(files@)),
            vv(files@).to_set() == diff_files(lv.take(i as int)),
            vv(snippets@) == cap(lv.take(i as int).filter(change_pred()), MAX_SNIPPETS as nat),
            hunks == count_kind(lv.take(i as int), DiffLine::Hunk),
            added == count_kind(lv.take(i as int), DiffLine::Added),
            deleted == count_kind(lv.take(i as int), DiffLine::Deleted),
            binary == count_kind(lv.take(i as int), DiffLine::Binary),
        decreases ls.len() - i,
    {
        assert(lv.take(i + 1).drop_last() =~= lv.take(i as int));
        assert(lv[i as int] == ls@[i as int]@);
        proof {
            lemma_count_kind_step(lv, DiffLine::Hunk, i as int);
            lemma_count_kind_step(lv, DiffLine::Added, i as int);
            lemma_count_kind_step(lv, DiffLine::Deleted, i as int);
            lemma_count_kind_step(lv, DiffLine::Binary, i as int);
        }
        let line = &ls[i];
        let kind = diff_line_exec(line);
        push_selected(
            &mut snippets,
            line,
            kind == DiffLine::Added || kind == DiffLine::Deleted,
            MAX_SNIPPETS,
            Ghost(lv),
            Ghost(i as int),
            Ghost(change_pred()),
        );
        match kind {
            DiffLine::FileHeader => {
                proof {
                    reveal_strlit("diff --git ");
                }
                let path = suffix_from(line, 11);
                insert_sorted(&mut files, path);
            },
            DiffLine::FileMarker => {
                insert_sorted(&mut files, line.clone());
            },
            DiffLine::Hunk => {
                hunks += 1;
            },
            DiffLine::Binary => {
                binary += 1;
            },
            DiffLine::Added => {
                added += 1;
            },
            DiffLine::Deleted => {
                deleted += 1;
            },
            DiffLine::Other => {},
        }
        i += 1;
    }
    assert(lv.take(i as int) =~= lv);
    proof {
        lemma_sorted_items(vv(files@));
    }
    let mut out: Vec<char> = Vec::new();
    push_str(&mut out, "git diff summary\nfiles_changed: ");
    push_dec(&mut out, files.len());
    push_str(&mut out, "\nadded_lines: ");
    push_dec(&mut out, added);
    push_str(&mut out, "\ndeleted_lines: ");
    push_dec(&mut out, deleted);
    push_str(&mut out, "\nbinary_files: ");
    push_dec(&mut out, binary);
    push_str(&mut out, "\nhunks: ");
    push_dec(&mut out, hunks);
    push_str(&mut out, "\nfiles:\n");
    capped_list_text(&mut out, &files, MAX_FILES);
    push_str(&mut out, "\nimportant snippets:\n");
    capped_list_text(&mut out, &snippets, MAX_SNIPPETS);
    assert(out@ =~= git_diff_body(lv));
    let fields = vec![
        count_field("added", added),
        count_field("deleted", deleted),
        count_field("files", files.len()),
    ];
    assert(fields_view(fields@) =~= git_diff_fields(lv));
    (out, fields)
}

} // verus!
