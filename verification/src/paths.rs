//! Filesystem paths as text, by the rules of Unix paths: `/` is the only
//! separator, and a path is absolute when it starts with `/`. These are the
//! rules `Path::join` and `Path::is_absolute` follow on Unix; Windows
//! paths (drive letters, `\\`) are not modelled.
use vstd::prelude::*;

use crate::text::{push_str, string_from_chars};

verus! {

broadcast use vstd::string::group_string_axioms;

/// A path that starts at the root (`Path::is_absolute` on Unix).
pub open spec fn is_absolute(p: Seq<char>) -> bool {
    p.len() > 0 && p[0] == '/'
}

/// `Path::join` on Unix: a relative `name` is appended after a separator (none is
/// added when `base` is empty or already ends in one); an absolute `name`
/// replaces `base`.
pub open spec fn join(base: Seq<char>, name: Seq<char>) -> Seq<char> {
    if is_absolute(name) {
        name
    } else if base.len() == 0 || base.last() == '/' {
        base + name
    } else {
        base + seq!['/'] + name
    }
}

/// `path` made absolute against the working directory `cwd`.
pub open spec fn absolute(path: Seq<char>, cwd: Seq<char>) -> Seq<char> {
    if is_absolute(path) {
        path
    } else {
        join(cwd, path)
    }
}

/// What `Path::file_name` returns for `path`: its last normal component.
pub uninterp spec fn path_file_name(path: Seq<char>) -> Option<Seq<char>>;

/// What `Path::with_file_name` returns for `path` and `name`.
pub uninterp spec fn path_with_file_name(path: Seq<char>, name: Seq<char>) -> Seq<char>;

/// What `Path::parent` returns for `path`.
pub uninterp spec fn path_parent(path: Seq<char>) -> Option<Seq<char>>;

pub open spec fn opt_view(o: Option<String>) -> Option<Seq<char>> {
    match o {
        Some(s) => Some(s@),
        None => None,
    }
}

/// `Path::file_name`, as text: the last normal component of `path`, or
/// `None` when it has none (the path is empty, a root, or ends in `..`) or
/// the component is not valid UTF-8. Claims only that the result is the one
/// named by `path_file_name`.
#[verifier::external_body]
pub(crate) fn file_name_of(path: &str) -> (r: Option<String>)
    ensures
        opt_view(r) == path_file_name(path@),
{
    std::path::Path::new(path).file_name().and_then(|name| name.to_str()).map(|name| name.to_string())
}

/// `Path::with_file_name`, as text: `path` with its last component replaced
/// by `name` (or `name` appended when there is none). Claims only that the
/// result is the one named by `path_with_file_name`.
#[verifier::external_body]
pub(crate) fn with_file_name_of(path: &str, name: &str) -> (r: String)
    ensures
        r@ == path_with_file_name(path@, name@),
{
    std::path::Path::new(path).with_file_name(name).to_string_lossy().into_owned()
}

/// `Path::parent`, as text: `path` without its last component, or `None`
/// for a path that ends in a root or prefix, or is empty. Claims only that
/// the result is the one named by `path_parent`.
#[verifier::external_body]
pub(crate) fn parent_of(path: &str) -> (r: Option<String>)
    ensures
        opt_view(r) == path_parent(path@),
{
    std::path::Path::new(path).parent().map(|parent| parent.to_string_lossy().into_owned())
}

/// Joins `name` onto `base`.
pub fn join_path(base: &str, name: &str) -> (r: String)
    ensures
        r@ == join(base@, name@),
{
    let mut out: Vec<char> = Vec::new();
    let name_chars = crate::text::chars_of(name);
    if name_chars.len() > 0 && name_chars[0] == '/' {
        return name.to_owned();
    }
    let base_chars = crate::text::chars_of(base);
    push_str(&mut out, base);
    if base_chars.len() > 0 && base_chars[base_chars.len() - 1] != '/' {
        out.push('/');
    }
    push_str(&mut out, name);
    assert(out@ =~= join(base@, name@));
    string_from_chars(&out)
}

/// `path` made absolute against the working directory `cwd`.
pub fn absolute_path(path: &str, cwd: &str) -> (r: String)
    ensures
        r@ == absolute(path@, cwd@),
{
    let chars = crate::text::chars_of(path);
    if chars.len() > 0 && chars[0] == '/' {
        path.to_owned()
    } else {
        join_path(cwd, path)
    }
}

} // verus!
