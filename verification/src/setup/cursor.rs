//! Cursor's JSON config: the `mcpServers` entry B3 writes, and the rules
//! for adding or removing it while keeping every other setting. The config
//! is read and written as text around these functions; here it is a JSON
//! value.
use vstd::prelude::*;

use crate::setup::codex::{mcp_args, mcp_command, template_args, template_command};
use crate::setup::{profile_text, InstallOptions, McpConfigOptions};
use crate::text::{chars_of, has_non_ws, has_non_ws_vec, push_str, str_eq, string_from_chars, strings_view, Lines};

verus! {

broadcast use vstd::string::group_string_axioms;

/// A JSON value. Numbers keep their text.
#[derive(Debug)]
pub enum Json {
    Null,
    Bool(bool),
    Number(String),
    Str(String),
    Array(Vec<Json>),
    Object(Vec<(String, Json)>),
}

/// The value of the first member named `key`.
pub open spec fn member(entries: Seq<(String, Json)>, key: Seq<char>) -> Option<Json>
    decreases entries.len(),
{
    if entries.len() == 0 {
        None
    } else if entries[0].0@ == key {
        Some(entries[0].1)
    } else {
        member(entries.drop_first(), key)
    }
}

/// The members of an object value (none for other values).
pub open spec fn members(j: Json) -> Seq<(String, Json)> {
    match j {
        Json::Object(es) => es@,
        _ => Seq::empty(),
    }
}

/// Where the first member named `key` stands (the number of members when
/// there is none).
pub open spec fn key_index(entries: Seq<(String, Json)>, key: Seq<char>) -> nat
    decreases entries.len(),
{
    if entries.len() == 0 {
        0
    } else if entries[0].0@ == key {
        0
    } else {
        1 + key_index(entries.drop_first(), key)
    }
}

/// The names of the members, in order.
pub open spec fn keys(entries: Seq<(String, Json)>) -> Seq<Seq<char>> {
    entries.map_values(|e: (String, Json)| e.0@)
}

/// The values of the members, in order.
pub open spec fn vals(entries: Seq<(String, Json)>) -> Seq<Json> {
    entries.map_values(|e: (String, Json)| e.1)
}

/// `r` is `entries` with `key` set to `v`, as a map's `insert` does: the
/// first member of that name gets the value in its place, and without one
/// the member is added at the end. Every other member stays, in order.
pub open spec fn set_member_is(r: Seq<(String, Json)>, entries: Seq<(String, Json)>, key: Seq<char>, v: Json) -> bool {
    let i = key_index(entries, key);
    if i < entries.len() {
        keys(r) == keys(entries) && vals(r) == vals(entries).update(i as int, v)
    } else {
        keys(r) == keys(entries).push(key) && vals(r) == vals(entries).push(v)
    }
}

/// The members without those named `key`, the others in order.
pub open spec fn without_key(entries: Seq<(String, Json)>, key: Seq<char>) -> Seq<(String, Json)>
    decreases entries.len(),
{
    if entries.len() == 0 {
        entries
    } else if entries.last().0@ == key {
        without_key(entries.drop_last(), key)
    } else {
        without_key(entries.drop_last(), key).push(entries.last())
    }
}

/// No two members share a name.
pub open spec fn keys_distinct(entries: Seq<(String, Json)>) -> bool {
    keys(entries).no_duplicates()
}

/// `j` is a string whose text is `s`.
pub open spec fn is_text(j: Json, s: Seq<char>) -> bool {
    j matches Json::Str(t) && t@ == s
}

/// `j` is an array of strings whose texts are `items`.
pub open spec fn is_text_array(j: Json, items: Lines) -> bool {
    j matches Json::Array(a) && a@.len() == items.len() && forall|i: int|
        0 <= i < items.len() ==> is_text(#[trigger] a@[i], items[i])
}

/// `j` is an object whose members are exactly `command` and `args`, with
/// these values.
pub open spec fn is_server(j: Json, command: Seq<char>, args: Lines) -> bool {
    &&& j is Object
    &&& members(j).len() == 2
    &&& members(j)[0].0@ == "command"@
    &&& is_text(members(j)[0].1, command)
    &&& members(j)[1].0@ == "args"@
    &&& is_text_array(members(j)[1].1, args)
}

/// The arguments the Cursor entry passes to the runtime.
pub open spec fn server_args(o: InstallOptions) -> Lines {
    seq![
        "serve"@,
        "--project"@,
        o.project_path@,
        "--database"@,
        o.database_path@,
        "--profile"@,
        profile_text(o.profile),
    ]
}

fn text(s: &str) -> (r: Json)
    ensures
        is_text(r, s@),
{
    Json::Str(s.to_owned())
}

fn text_array(items: &Vec<String>) -> (r: Json)
    ensures
        is_text_array(r, strings_view(items@)),
{
    let mut a: Vec<Json> = Vec::new();
    let mut i: usize = 0;
    while i < items.len()
        invariant
            i <= items.len(),
            a@.len() == i,
            forall|k: int| 0 <= k < i ==> is_text(#[trigger] a@[k], items@[k]@),
        decreases items.len() - i,
    {
        a.push(text(items[i].as_str()));
        i += 1;
    }
    Json::Array(a)
}

fn server(command: &str, args: &Vec<String>) -> (r: Json)
    ensures
        is_server(r, command@, strings_view(args@)),
{
    let entries = vec![("command".to_owned(), text(command)), ("args".to_owned(), text_array(args))];
    Json::Object(entries)
}

/// The Cursor entry that runs the MCP runtime for a project.
pub fn cursor_server_value(options: &InstallOptions) -> (r: Json)
    ensures
        is_server(r, options.command_path@, server_args(*options)),
{
    let mut args: Vec<String> = Vec::new();
    args.push("serve".to_owned());
    args.push("--project".to_owned());
    args.push(options.project_path.clone());
    args.push("--database".to_owned());
    args.push(options.database_path.clone());
    args.push("--profile".to_owned());
    args.push(options.profile.to_string());
    assert(strings_view(args@) =~= server_args(*options));
    server(options.command_path.as_str(), &args)
}

/// Whether a config text holds anything to read: text that is present and
/// not blank. Absent or blank text stands for an empty object.
pub fn needs_parse(existing: Option<&str>) -> (r: bool)
    ensures
        r == match existing {
            Some(t) => has_non_ws(t@),
            None => false,
        },
{
    match existing {
        Some(t) => has_non_ws_vec(&chars_of(t)),
        None => false,
    }
}

/// The refusal of a config that does not parse.
pub fn invalid_json_message(error: &str) -> (r: String)
    ensures
        r@ == "invalid JSON config; not overwriting without a valid parse: "@ + error@,
{
    let mut out: Vec<char> = Vec::new();
    push_str(&mut out, "invalid JSON config; not overwriting without a valid parse: ");
    push_str(&mut out, error);
    string_from_chars(&out)
}

/// A single member is found under its own name only.
pub proof fn lemma_member_single(e: (String, Json), k: Seq<char>)
    ensures
        member(seq![e], k) == (if e.0@ == k {
            Some(e.1)
        } else {
            None
        }),
{
    reveal_with_fuel(member, 2);
    assert(seq![e].drop_first() =~= Seq::<(String, Json)>::empty());
}

/// Replacing the first member of a name, looked up under one key.
pub proof fn lemma_member_update_at(es: Seq<(String, Json)>, i: int, e: (String, Json), k: Seq<char>)
    requires
        0 <= i < es.len(),
        es[i].0@ == e.0@,
        forall|j: int| 0 <= j < i ==> (#[trigger] es[j]).0@ != e.0@,
    ensures
        k == e.0@ ==> member(es.update(i, e), k) == Some(e.1),
        k != e.0@ ==> member(es.update(i, e), k) == member(es, k),
    decreases i,
{
    if i > 0 {
        assert(es.update(i, e).drop_first() =~= es.drop_first().update(i - 1, e));
        assert forall|j: int| 0 <= j < i - 1 implies (#[trigger] es.drop_first()[j]).0@ != e.0@ by {
            assert(es.drop_first()[j] == es[j + 1]);
        }
        assert(es[0].0@ != e.0@);
        lemma_member_update_at(es.drop_first(), i - 1, e, k);
    } else {
        assert(es.update(0, e).drop_first() =~= es.drop_first());
    }
}

/// Replacing the first member of a name.
pub proof fn lemma_member_update(es: Seq<(String, Json)>, i: int, e: (String, Json))
    requires
        0 <= i < es.len(),
        es[i].0@ == e.0@,
        forall|j: int| 0 <= j < i ==> (#[trigger] es[j]).0@ != e.0@,
    ensures
        member(es.update(i, e), e.0@) == Some(e.1),
        forall|k: Seq<char>| k != e.0@ ==> member(es.update(i, e), k) == member(es, k),
{
    lemma_member_update_at(es, i, e, e.0@);
    assert forall|k: Seq<char>| k != e.0@ implies member(es.update(i, e), k) == member(es, k) by {
        lemma_member_update_at(es, i, e, k);
    }
}

/// A member of a later part is found only when the earlier part has none
/// of that name.
pub proof fn lemma_member_append(a: Seq<(String, Json)>, b: Seq<(String, Json)>, k: Seq<char>)
    ensures
        member(a + b, k) == (match member(a, k) {
            Some(v) => Some(v),
            None => member(b, k),
        }),
    decreases a.len(),
{
    if a.len() > 0 {
        assert((a + b).drop_first() =~= a.drop_first() + b);
        lemma_member_append(a.drop_first(), b, k);
    } else {
        assert(a + b =~= b);
    }
}

/// Adding a member under a new name.
pub proof fn lemma_member_push(es: Seq<(String, Json)>, e: (String, Json))
    requires
        forall|j: int| 0 <= j < es.len() ==> (#[trigger] es[j]).0@ != e.0@,
    ensures
        member(es.push(e), e.0@) == Some(e.1),
        forall|k: Seq<char>| k != e.0@ ==> member(es.push(e), k) == member(es, k),
{
    assert(es.push(e) =~= es + seq![e]);
    lemma_member_find(es, e.0@, es.len() as int);
    lemma_member_append(es, seq![e], e.0@);
    lemma_member_single(e, e.0@);
    assert forall|k: Seq<char>| k != e.0@ implies member(es.push(e), k) == member(es, k) by {
        lemma_member_append(es, seq![e], k);
        lemma_member_single(e, k);
    }
}

/// The members with `key` set to `value`: the first member of that name
/// is replaced; without one, the member is added at the end.
fn with_member(given: Vec<(String, Json)>, key: &str, value: Json) -> (r: Vec<(String, Json)>)
    ensures
        member(r@, key@) == Some(value),
        forall|k: Seq<char>| k != key@ ==> member(r@, k) == member(given@, k),
        set_member_is(r@, given@, key@, value),
{
    let mut entries = given;
    let ghost es = entries@;
    let mut i: usize = 0;
    while i < entries.len()
        invariant
            es == entries@,
            es == given@,
            i <= entries.len(),
            forall|j: int| 0 <= j < i ==> (#[trigger] es[j]).0@ != key@,
        decreases entries.len() - i,
    {
        if str_eq(entries[i].0.as_str(), key) {
            let e = (key.to_owned(), value);
            proof {
                lemma_member_update(es, i as int, e);
                lemma_member_find(es, key@, i as int);
            }
            entries.set(i, e);
            assert(keys(entries@) =~= keys(es));
            assert(vals(entries@) =~= vals(es).update(i as int, e.1));
            return entries;
        }
        i += 1;
    }
    let e = (key.to_owned(), value);
    proof {
        lemma_member_push(es, e);
        lemma_member_find(es, key@, es.len() as int);
    }
    entries.push(e);
    assert(keys(entries@) =~= keys(es).push(key@));
    assert(vals(entries@) =~= vals(es).push(e.1));
    entries
}

/// The members without any member named `key`.
fn without_member(entries: Vec<(String, Json)>, key: &str) -> (r: Vec<(String, Json)>)
    ensures
        member(r@, key@) is None,
        forall|k: Seq<char>| k != key@ ==> member(r@, k) == member(entries@, k),
        r@ == without_key(entries@, key@),
{
    let ghost es = entries@;
    let mut rest = entries;
    let mut kept: Vec<(String, Json)> = Vec::new();
    let ghost mut n: int = 0;
    assert(kept@ + rest@ =~= es);
    assert(es.take(0) =~= Seq::<(String, Json)>::empty());
    assert(rest@ =~= es.skip(0));
    while rest.len() > 0
        invariant
            member(kept@, key@) is None,
            forall|k: Seq<char>| k != key@ ==> member(kept@ + rest@, k) == member(es, k),
            0 <= n <= es.len(),
            rest@ == es.skip(n),
            kept@ == without_key(es.take(n), key@),
        decreases rest.len(),
    {
        let ghost before_kept = kept@;
        let ghost before_rest = rest@;
        assert(es.take(n + 1).drop_last() =~= es.take(n));
        assert(es.take(n + 1).last() == es[n]);
        assert(before_rest[0] == es[n]);
        let first = rest.remove(0);
        proof {
            n = n + 1;
        }
        assert(rest@ =~= es.skip(n));
        assert(before_rest.drop_first() =~= rest@);
        assert(before_rest[0] == first);
        if !str_eq(first.0.as_str(), key) {
            kept.push(first);
            proof {
                lemma_member_append(before_kept, seq![first], key@);
                lemma_member_single(first, key@);
                assert(before_kept.push(first) =~= before_kept + seq![first]);
                assert(kept@ + rest@ =~= before_kept + before_rest);
            }
        } else {
            proof {
                assert forall|k: Seq<char>| k != key@ implies member(kept@ + rest@, k) == member(es, k) by {
                    lemma_member_append(before_kept, before_rest, k);
                    lemma_member_append(before_kept, rest@, k);
                }
            }
        }
    }
    assert(kept@ + rest@ =~= kept@);
    assert(n == es.len());
    assert(es.take(n) =~= es);
    kept
}

/// The `mcpServers` member of a config, if it has one.
pub open spec fn servers_entry(root: Json) -> Option<Json> {
    member(members(root), "mcpServers"@)
}

pub open spec fn root_error_text() -> Seq<char> {
    "cursor config root must be a JSON object"@
}

pub open spec fn servers_error_text() -> Seq<char> {
    "cursor config mcpServers must be an object"@
}

/// Where the first member named `key` stands (the number of members when
/// there is none).
fn find_member(entries: &Vec<(String, Json)>, key: &str) -> (r: usize)
    ensures
        r <= entries.len(),
        r < entries.len() ==> entries@[r as int].0@ == key@,
        forall|j: int| 0 <= j < r ==> (#[trigger] entries@[j]).0@ != key@,
{
    let mut i: usize = 0;
    while i < entries.len()
        invariant
            i <= entries.len(),
            forall|j: int| 0 <= j < i ==> (#[trigger] entries@[j]).0@ != key@,
        decreases entries.len() - i,
    {
        if str_eq(entries[i].0.as_str(), key) {
            return i;
        }
        i += 1;
    }
    i
}

/// The first member of a name is the one a scan finds.
pub proof fn lemma_member_find(es: Seq<(String, Json)>, key: Seq<char>, i: int)
    requires
        0 <= i <= es.len(),
        i < es.len() ==> es[i].0@ == key,
        forall|j: int| 0 <= j < i ==> (#[trigger] es[j]).0@ != key,
    ensures
        member(es, key) == (if i < es.len() {
            Some(es[i].1)
        } else {
            None
        }),
        key_index(es, key) == i,
    decreases i,
{
    if i > 0 {
        assert forall|j: int| 0 <= j < i - 1 implies (#[trigger] es.drop_first()[j]).0@ != key by {
            assert(es.drop_first()[j] == es[j + 1]);
        }
        lemma_member_find(es.drop_first(), key, i - 1);
    } else if es.len() == 0 {
    }
}

/// The outcome of adding the server entry `name` to a config object with
/// the members `es`: an object whose `mcpServers` object gains (or has
/// replaced) that entry, holding `command` and `args`, with every other
/// setting and server kept; refused when `mcpServers` is there and is not
/// an object.
pub open spec fn installed_in(es: Seq<(String, Json)>, r: Result<Json, String>, name: Seq<char>, command: Seq<char>, args: Lines) -> bool {
    if member(es, "mcpServers"@) is Some && !(member(es, "mcpServers"@)->Some_0 is Object) {
        r is Err && r->Err_0@ == servers_error_text()
    } else {
        &&& r is Ok
        &&& r->Ok_0 is Object
        &&& forall|k: Seq<char>|
            k != "mcpServers"@ ==> member(members(r->Ok_0), k) == member(es, k)
        &&& member(members(r->Ok_0), "mcpServers"@) is Some
        &&& {
            let s2 = member(members(r->Ok_0), "mcpServers"@)->Some_0;
            &&& s2 is Object
            &&& member(members(s2), name) is Some
            &&& is_server(member(members(s2), name)->Some_0, command, args)
            &&& forall|k: Seq<char>|
                k != name ==> member(members(s2), k) == match member(es, "mcpServers"@) {
                    Some(s) => member(members(s), k),
                    None => None,
                }
            &&& set_member_is(members(r->Ok_0), es, "mcpServers"@, s2)
            &&& set_member_is(
                members(s2),
                match member(es, "mcpServers"@) {
                    Some(s) => members(s),
                    None => Seq::empty(),
                },
                name,
                member(members(s2), name)->Some_0,
            )
        }
    }
}

/// The outcome of adding the server entry `name` to the config `root`;
/// refused when `root` is not an object.
pub open spec fn installed(root: Json, r: Result<Json, String>, name: Seq<char>, command: Seq<char>, args: Lines) -> bool {
    if !(root is Object) {
        r is Err && r->Err_0@ == root_error_text()
    } else {
        installed_in(members(root), r, name, command, args)
    }
}

/// Adds (or replaces) the server entry `name` in a config's `mcpServers`.
fn insert_server(root: Json, name: &str, entry: Json, Ghost(command): Ghost<Seq<char>>, Ghost(args): Ghost<Lines>) -> (r: Result<Json, String>)
    requires
        is_server(entry, command, args),
    ensures
        installed(root, r, name@, command, args),
{
    let ghost root0 = root;
    let mut entries = match root {
        Json::Object(es) => es,
        _ => {
            return Err("cursor config root must be a JSON object".to_owned());
        },
    };
    let ghost es = entries@;
    let idx = find_member(&entries, "mcpServers");
    proof {
        lemma_member_find(es, "mcpServers"@, idx as int);
    }
    if idx < entries.len() {
        let (k, v) = entries.remove(idx);
        assert(es[idx as int] == (k, v));
        let ss = match v {
            Json::Object(ss) => ss,
            _ => {
                return Err("cursor config mcpServers must be an object".to_owned());
            },
        };
        let ghost old_servers = ss@;
        let updated = with_member(ss, name, entry);
        let e = (k, Json::Object(updated));
        entries.insert(idx, e);
        assert(entries@ =~= es.update(idx as int, e));
        proof {
            lemma_member_update(es, idx as int, e);
        }
        assert(keys(entries@) =~= keys(es));
        assert(vals(entries@) =~= vals(es).update(idx as int, e.1));
        Ok(Json::Object(entries))
    } else {
        let updated = with_member(Vec::new(), name, entry);
        proof {
            assert forall|k: Seq<char>| k != name@ implies member(updated@, k) is None by {
                assert(member(Seq::<(String, Json)>::empty(), k) is None);
            }
        }
        let e = ("mcpServers".to_owned(), Json::Object(updated));
        proof {
            lemma_member_push(es, e);
        }
        entries.push(e);
        assert(keys(entries@) =~= keys(es).push("mcpServers"@));
        assert(vals(entries@) =~= vals(es).push(e.1));
        Ok(Json::Object(entries))
    }
}

/// Before the first member of a name, and anywhere when there is none,
/// no member has that name.
proof fn lemma_key_index_absent(es: Seq<(String, Json)>, key: Seq<char>)
    ensures
        key_index(es, key) <= es.len(),
        forall|j: int| 0 <= j < key_index(es, key) && j < es.len() ==> (#[trigger] es[j]).0@ != key,
    decreases es.len(),
{
    if es.len() > 0 && es[0].0@ != key {
        lemma_key_index_absent(es.drop_first(), key);
        assert forall|j: int| 0 <= j < key_index(es, key) && j < es.len() implies (#[trigger] es[j]).0@ != key by {
            if j > 0 {
                assert(es[j] == es.drop_first()[j - 1]);
            }
        }
    }
}

/// Setting a member keeps the names distinct.
proof fn lemma_set_member_distinct(r: Seq<(String, Json)>, es: Seq<(String, Json)>, key: Seq<char>, v: Json)
    requires
        keys_distinct(es),
        set_member_is(r, es, key, v),
    ensures
        keys_distinct(r),
{
    lemma_key_index_absent(es, key);
    if key_index(es, key) >= es.len() {
        let ks = keys(es);
        assert forall|i: int, j: int|
            0 <= i < ks.push(key).len() && 0 <= j < ks.push(key).len() && i != j implies ks.push(key)[i]
            != ks.push(key)[j] by {
            if i < ks.len() && j < ks.len() {
            } else if i < ks.len() {
                assert(es[i].0@ != key);
            } else {
                assert(es[j].0@ != key);
            }
        }
    }
}

/// Every member kept is a member of the original, and none has the name.
proof fn lemma_without_key_members(es: Seq<(String, Json)>, key: Seq<char>)
    ensures
        forall|i: int| 0 <= i < without_key(es, key).len() ==> (#[trigger] without_key(es, key)[i]).0@ != key,
        forall|i: int|
            0 <= i < without_key(es, key).len() ==> exists|j: int|
                0 <= j < es.len() && es[j] == #[trigger] without_key(es, key)[i],
    decreases es.len(),
{
    if es.len() > 0 {
        lemma_without_key_members(es.drop_last(), key);
        let w = without_key(es.drop_last(), key);
        assert forall|i: int| 0 <= i < without_key(es, key).len() implies exists|j: int|
            0 <= j < es.len() && es[j] == #[trigger] without_key(es, key)[i] by {
            if i < w.len() {
                let j = choose|j: int| 0 <= j < es.drop_last().len() && es.drop_last()[j] == w[i];
                assert(es[j] == w[i]);
            } else {
                assert(without_key(es, key)[i] == es[es.len() - 1]);
            }
        }
    }
}

/// Dropping a name keeps the names distinct.
proof fn lemma_without_key_distinct(es: Seq<(String, Json)>, key: Seq<char>)
    requires
        keys_distinct(es),
    ensures
        keys_distinct(without_key(es, key)),
    decreases es.len(),
{
    if es.len() > 0 {
        let d = es.drop_last();
        assert(keys_distinct(d)) by {
            assert forall|i: int, j: int| 0 <= i < keys(d).len() && 0 <= j < keys(d).len() && i != j implies keys(d)[i]
                != keys(d)[j] by {
                assert(keys(d)[i] == keys(es)[i] && keys(d)[j] == keys(es)[j]);
            }
        }
        lemma_without_key_distinct(d, key);
        lemma_without_key_members(d, key);
        let w = without_key(d, key);
        if es.last().0@ != key {
            let ks = keys(w.push(es.last()));
            assert forall|i: int, j: int| 0 <= i < ks.len() && 0 <= j < ks.len() && i != j implies ks[i] != ks[j] by {
                if i < w.len() && j < w.len() {
                    assert(ks[i] == keys(w)[i] && ks[j] == keys(w)[j]);
                } else {
                    let m = if i < w.len() {
                        i
                    } else {
                        j
                    };
                    let q = choose|q: int| 0 <= q < d.len() && d[q] == #[trigger] w[m];
                    assert(keys(es)[q] != keys(es)[es.len() - 1]);
                }
            }
        }
    }
}

/// Adding B3's entry to a config whose names are distinct, at the top and
/// in `mcpServers`, keeps them distinct at both levels: the config written
/// holds no second `mcpServers` and no second entry of a server.
pub proof fn lemma_install_keeps_keys_distinct(root: Json, r: Json, name: Seq<char>, command: Seq<char>, args: Lines)
    requires
        installed(root, Ok(r), name, command, args),
        keys_distinct(members(root)),
        match servers_entry(root) {
            Some(s) => keys_distinct(members(s)),
            None => true,
        },
    ensures
        keys_distinct(members(r)),
        keys_distinct(members(servers_entry(r)->Some_0)),
{
    let es = members(root);
    let s2 = servers_entry(r)->Some_0;
    lemma_set_member_distinct(members(r), es, "mcpServers"@, s2);
    let old_servers = match member(es, "mcpServers"@) {
        Some(s) => members(s),
        None => Seq::<(String, Json)>::empty(),
    };
    assert(keys(Seq::<(String, Json)>::empty()) =~= Seq::<Seq<char>>::empty());
    lemma_set_member_distinct(members(s2), old_servers, name, member(members(s2), name)->Some_0);
}

/// Removing the entry from a config whose names are distinct keeps them
/// distinct at both levels.
pub proof fn lemma_remove_keeps_keys_distinct(root: Json, r: Json, name: Seq<char>)
    requires
        removed(root, r, name),
        keys_distinct(members(root)),
        match servers_entry(root) {
            Some(s) => keys_distinct(members(s)),
            None => true,
        },
    ensures
        keys_distinct(members(r)),
        r is Object && servers_entry(r) is Some ==> keys_distinct(members(servers_entry(r)->Some_0)),
{
    if root is Object && servers_entry(root) is Some && servers_entry(root)->Some_0 is Object {
        lemma_without_key_distinct(members(servers_entry(root)->Some_0), name);
    }
}

/// Adds (or replaces) B3's entry in a Cursor config, keeping every other
/// setting and server; refused when the config or its `mcpServers` is not
/// an object. `root` is the config read, `None` when there was no config
/// text or only blank text, which stands for an empty object.
pub fn update_cursor_config(root: Option<Json>, options: &InstallOptions) -> (r: Result<Json, String>)
    ensures
        match root {
            Some(j) => installed(j, r, options.server_name@, options.command_path@, server_args(*options)),
            None => installed_in(Seq::empty(), r, options.server_name@, options.command_path@, server_args(*options)),
        },
{
    let root = match root {
        Some(j) => j,
        None => Json::Object(Vec::new()),
    };
    let entry = cursor_server_value(options);
    insert_server(
        root,
        options.server_name.as_str(),
        entry,
        Ghost(options.command_path@),
        Ghost(server_args(*options)),
    )
}

/// The config after removing the server entry `name`: when the config and
/// its `mcpServers` are objects the entry is gone and everything else is
/// kept; otherwise the config is unchanged.
pub open spec fn removed(root: Json, r: Json, name: Seq<char>) -> bool {
    if root is Object && servers_entry(root) is Some && servers_entry(root)->Some_0 is Object {
        &&& r is Object
        &&& forall|k: Seq<char>|
            k != "mcpServers"@ ==> member(members(r), k) == member(members(root), k)
        &&& member(members(r), "mcpServers"@) is Some
        &&& {
            let s2 = member(members(r), "mcpServers"@)->Some_0;
            &&& s2 is Object
            &&& keys(members(r)) == keys(members(root))
            &&& vals(members(r)) == vals(members(root)).update(
                key_index(members(root), "mcpServers"@) as int,
                s2,
            )
            &&& members(s2) == without_key(members(member(members(root), "mcpServers"@)->Some_0), name)
            &&& member(members(s2), name) is None
            &&& forall|k: Seq<char>|
                k != name ==> member(members(s2), k) == member(
                    members(member(members(root), "mcpServers"@)->Some_0),
                    k,
                )
        }
    } else {
        r == root
    }
}

/// `j` is an object whose only member is an empty `mcpServers` object.
pub open spec fn is_empty_servers_config(j: Json) -> bool {
    &&& j is Object
    &&& members(j).len() == 1
    &&& members(j)[0].0@ == "mcpServers"@
    &&& members(j)[0].1 is Object
    &&& members(members(j)[0].1).len() == 0
}

/// Removes the server entry `server_name` from a Cursor config, keeping
/// everything else. `root` is the config read, `None` when the config
/// text was blank, which gives an empty `mcpServers` object.
pub fn remove_cursor_server(root: Option<Json>, server_name: &str) -> (r: Json)
    ensures
        match root {
            Some(j) => removed(j, r, server_name@),
            None => is_empty_servers_config(r),
        },
{
    match root {
        Some(j) => remove_server(j, server_name),
        None => Json::Object(vec![("mcpServers".to_owned(), Json::Object(Vec::new()))]),
    }
}

/// Removes the server entry `server_name` from a config value.
fn remove_server(root: Json, server_name: &str) -> (r: Json)
    ensures
        removed(root, r, server_name@),
{
    let mut entries = match root {
        Json::Object(es) => es,
        other => {
            return other;
        },
    };
    let ghost es = entries@;
    let idx = find_member(&entries, "mcpServers");
    proof {
        lemma_member_find(es, "mcpServers"@, idx as int);
    }
    if idx == entries.len() {
        return Json::Object(entries);
    }
    let servers_are_object = match &entries[idx].1 {
        Json::Object(_) => true,
        _ => false,
    };
    if !servers_are_object {
        return Json::Object(entries);
    }
    let (k, v) = entries.remove(idx);
    assert(es[idx as int] == (k, v));
    let ss = match v {
        Json::Object(ss) => ss,
        other => {
            return other;
        },
    };
    let ghost old_servers = ss@;
    let kept = without_member(ss, server_name);
    let e = (k, Json::Object(kept));
    entries.insert(idx, e);
    assert(entries@ =~= es.update(idx as int, e));
    proof {
        lemma_member_update(es, idx as int, e);
    }
    assert(keys(entries@) =~= keys(es));
    assert(vals(entries@) =~= vals(es).update(idx as int, e.1));
    Json::Object(entries)
}

/// The Cursor entry of a template: `command`, `args`, and for a source
/// checkout `cwd`.
pub open spec fn is_template_server(j: Json, o: McpConfigOptions) -> bool {
    &&& j is Object
    &&& members(j).len() == (if o.cargo_run {
        3nat
    } else {
        2nat
    })
    &&& members(j)[0].0@ == "command"@
    &&& is_text(members(j)[0].1, template_command(o))
    &&& members(j)[1].0@ == "args"@
    &&& is_text_array(members(j)[1].1, template_args(o))
    &&& o.cargo_run ==> members(j)[2].0@ == "cwd"@ && is_text(members(j)[2].1, o.repo_path@)
}

/// `j` is an object whose only member is `mcpServers`, an object whose
/// only member is the server entry of `o`.
pub open spec fn is_cursor_template(j: Json, o: McpConfigOptions) -> bool {
    &&& j is Object
    &&& members(j).len() == 1
    &&& members(j)[0].0@ == "mcpServers"@
    &&& members(j)[0].1 is Object
    &&& members(members(j)[0].1).len() == 1
    &&& members(members(j)[0].1)[0].0@ == o.server_name@
    &&& is_template_server(members(members(j)[0].1)[0].1, o)
}

/// A Cursor config template for the MCP runtime, printed and not written.
pub fn cursor_mcp_template(options: &McpConfigOptions) -> (r: Json)
    ensures
        is_cursor_template(r, *options),
{
    let command = mcp_command(options);
    let args = mcp_args(options);
    let mut entries: Vec<(String, Json)> = vec![("command".to_owned(), text(command.as_str())), ("args".to_owned(), text_array(&args))];
    if options.cargo_run {
        entries.push(("cwd".to_owned(), text(options.repo_path.as_str())));
    }
    let server = Json::Object(entries);
    let servers = vec![(options.server_name.clone(), server)];
    Json::Object(vec![("mcpServers".to_owned(), Json::Object(servers))])
}

/// Adding the server entry again changes nothing: the second update
/// succeeds, keeps every setting and every other server of the first, and
/// holds the same entry under `name`.
pub proof fn lemma_cursor_update_idempotent(
    root: Json,
    first: Json,
    second: Result<Json, String>,
    name: Seq<char>,
    command: Seq<char>,
    args: Lines,
)
    requires
        installed(root, Ok(first), name, command, args),
        installed(first, second, name, command, args),
    ensures
        second is Ok,
        forall|k: Seq<char>| #[trigger] member(members(second->Ok_0), k) == member(members(first), k) || k == "mcpServers"@,
        forall|k: Seq<char>|
            #[trigger] member(members(servers_entry(second->Ok_0)->Some_0), k) == member(members(servers_entry(first)->Some_0), k)
                || k == name,
        is_server(member(members(servers_entry(second->Ok_0)->Some_0), name)->Some_0, command, args),
        is_server(member(members(servers_entry(first)->Some_0), name)->Some_0, command, args),
{
}

/// Removing the server entry after adding it leaves every setting and
/// every other server of the config as they were, and no entry of that
/// name.
pub proof fn lemma_cursor_remove_after_update(
    root: Json,
    added: Json,
    removed_config: Json,
    name: Seq<char>,
    command: Seq<char>,
    args: Lines,
)
    requires
        installed(root, Ok(added), name, command, args),
        removed(added, removed_config, name),
    ensures
        removed_config is Object,
        forall|k: Seq<char>| #[trigger] member(members(removed_config), k) == member(members(root), k) || k == "mcpServers"@,
        member(members(servers_entry(removed_config)->Some_0), name) is None,
        forall|k: Seq<char>|
            k != name ==> #[trigger] member(members(servers_entry(removed_config)->Some_0), k) == match servers_entry(root) {
                Some(s) => member(members(s), k),
                None => None,
            },
{
}

} // verus!
