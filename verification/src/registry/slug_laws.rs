//! What holds of the ids made from names: every slug is a valid registry
//! id, and making a slug of a slug changes nothing.
use vstd::prelude::*;

use crate::registry::{id_char, id_error, slug, slug_scan, trim_dashes};
use crate::text::{has_non_ws, is_alnum, is_digit, is_lower, is_ws, lower_char};

verus! {

/// A character a slug holds: a lowercase letter, a digit or a dash.
pub open spec fn slug_char(c: char) -> bool {
    is_lower(c) || is_digit(c) || c == '-'
}

/// Text as a slug is built: slug characters, no leading dash, and no two
/// dashes in a row.
pub open spec fn slug_text(u: Seq<char>) -> bool {
    &&& forall|i: int| 0 <= i < u.len() ==> slug_char(#[trigger] u[i])
    &&& u.len() > 0 ==> u[0] != '-'
    &&& forall|i: int| 0 <= i < u.len() - 1 ==> !(#[trigger] u[i] == '-' && u[i + 1] == '-')
}

/// A finished slug: slug text that is not empty and does not end in a
/// dash.
pub open spec fn clean_slug(t: Seq<char>) -> bool {
    slug_text(t) && t.len() > 0 && t.last() != '-'
}

proof fn lemma_lower_char_alnum(c: char)
    requires
        is_alnum(c),
    ensures
        is_lower(lower_char(c)) || is_digit(lower_char(c)),
{
    if 'A' <= c && c <= 'Z' {
        let x = (c as u32) + 32;
        assert(97 <= x <= 122);
        assert(('a' as u32) == 97 && ('z' as u32) == 122);
    }
}

proof fn lemma_lower_char_keeps(c: char)
    requires
        is_lower(c) || is_digit(c),
    ensures
        lower_char(c) == c,
{
}

proof fn lemma_slug_text_prefix(u: Seq<char>)
    requires
        slug_text(u),
        u.len() > 0,
    ensures
        slug_text(u.drop_last()),
{
    let v = u.drop_last();
    assert forall|i: int| 0 <= i < v.len() - 1 implies !(#[trigger] v[i] == '-' && v[i + 1] == '-') by {
        assert(v[i] == u[i] && v[i + 1] == u[i + 1]);
    }
}

/// Scanning builds slug text, and it ends in a dash exactly when the
/// scan says so.
proof fn lemma_scan_shape(s: Seq<char>)
    ensures
        slug_text(slug_scan(s).0),
        slug_scan(s).1 == (slug_scan(s).0.len() > 0 && slug_scan(s).0.last() == '-'),
    decreases s.len(),
{
    if s.len() > 0 {
        lemma_scan_shape(s.drop_last());
        let (out, dash) = slug_scan(s.drop_last());
        let c = s.last();
        if is_alnum(c) {
            lemma_lower_char_alnum(c);
            let u = out.push(lower_char(c));
            assert forall|i: int| 0 <= i < u.len() - 1 implies !(#[trigger] u[i] == '-' && u[i + 1] == '-') by {
                if i + 1 < out.len() {
                    assert(u[i] == out[i] && u[i + 1] == out[i + 1]);
                }
            }
            assert forall|i: int| 0 <= i < u.len() implies slug_char(#[trigger] u[i]) by {
                if i < out.len() {
                    assert(u[i] == out[i]);
                }
            }
        } else if !dash && out.len() > 0 {
            let u = out.push('-');
            assert forall|i: int| 0 <= i < u.len() - 1 implies !(#[trigger] u[i] == '-' && u[i + 1] == '-') by {
                if i + 1 < out.len() {
                    assert(u[i] == out[i] && u[i + 1] == out[i + 1]);
                } else {
                    assert(u[i] == out.last());
                }
            }
            assert forall|i: int| 0 <= i < u.len() implies slug_char(#[trigger] u[i]) by {
                if i < out.len() {
                    assert(u[i] == out[i]);
                }
            }
        }
    }
}

/// Dropping trailing dashes keeps slug text and leaves none at the end.
proof fn lemma_trim_shape(u: Seq<char>)
    requires
        slug_text(u),
    ensures
        slug_text(trim_dashes(u)),
        trim_dashes(u).len() > 0 ==> trim_dashes(u).last() != '-',
    decreases u.len(),
{
    if u.len() > 0 && u.last() == '-' {
        lemma_slug_text_prefix(u);
        lemma_trim_shape(u.drop_last());
    }
}

/// Scanning slug text gives it back unchanged.
proof fn lemma_scan_slug_text(u: Seq<char>)
    requires
        slug_text(u),
    ensures
        slug_scan(u) == (u, u.len() > 0 && u.last() == '-'),
    decreases u.len(),
{
    if u.len() > 0 {
        let v = u.drop_last();
        lemma_slug_text_prefix(u);
        lemma_scan_slug_text(v);
        let c = u.last();
        assert(slug_char(u[u.len() - 1]));
        if c == '-' {
            assert(u.len() > 1);
            assert(!(u[u.len() - 2] == '-' && u[u.len() - 1] == '-'));
            assert(v.last() == u[u.len() - 2]);
            assert(v.push('-') =~= u);
        } else {
            lemma_lower_char_keeps(c);
            assert(v.push(c) =~= u);
        }
    }
}

/// `"project"` is a finished slug.
proof fn lemma_project_clean()
    ensures
        clean_slug("project"@),
{
    reveal_strlit("project");
    let p = "project"@;
    assert(p.len() == 7);
    assert forall|i: int| 0 <= i < p.len() implies slug_char(#[trigger] p[i]) by {
        assert(is_lower(p[i]));
    }
}

/// Every slug is a finished slug and a valid registry id.
pub proof fn lemma_slug_valid(s: Seq<char>)
    ensures
        clean_slug(slug(s)),
        id_error(slug(s)) is None,
{
    lemma_scan_shape(s);
    lemma_trim_shape(slug_scan(s).0);
    lemma_project_clean();
    let t = slug(s);
    assert(!is_ws(t[0]));
    assert(has_non_ws(t));
    assert forall|i: int| 0 <= i < t.len() implies id_char(#[trigger] t[i]) by {
        assert(slug_char(t[i]));
    }
}

/// Making a slug of a slug changes nothing.
pub proof fn lemma_slug_idempotent(s: Seq<char>)
    ensures
        slug(slug(s)) == slug(s),
{
    lemma_slug_valid(s);
    let t = slug(s);
    lemma_scan_slug_text(t);
    assert(trim_dashes(t) == t);
}

} // verus!
