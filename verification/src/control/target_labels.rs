//! The labels of the scope targets other than messaging: routes,
//! components, modules, data access, realtime and infrastructure records.
use vstd::prelude::*;

use crate::text::{push_str, string_from_chars};

verus! {

broadcast use vstd::string::group_string_axioms;

/// The texts of optional strings.
pub open spec fn opt_texts(v: Seq<Option<String>>) -> Seq<Option<Seq<char>>> {
    v.map_values(|o: Option<String>| match o {
        Some(s) => Some(s@),
        None => None,
    })
}

/// The first name there is, else the fallback (`Option::or` down the list,
/// then `unwrap_or`).
pub open spec fn first_name(names: Seq<Option<Seq<char>>>, fallback: Seq<char>) -> Seq<char>
    decreases names.len(),
{
    if names.len() == 0 {
        fallback
    } else {
        match names[0] {
            Some(n) => n,
            None => first_name(names.drop_first(), fallback),
        }
    }
}

/// Appends the first name there is, else the fallback.
fn push_first_name(out: &mut Vec<char>, names: &Vec<Option<String>>, fallback: &str)
    ensures
        final(out)@ == old(out)@ + first_name(opt_texts(names@), fallback@),
{
    let ghost ns = opt_texts(names@);
    let mut i: usize = 0;
    assert(ns.skip(0) =~= ns);
    while i < names.len()
        invariant
            i <= names.len(),
            ns == opt_texts(names@),
            out@ == old(out)@,
            first_name(ns, fallback@) == first_name(ns.skip(i as int), fallback@),
        decreases names.len() - i,
    {
        assert(ns.skip(i as int)[0] == ns[i as int]);
        match &names[i] {
            Some(n) => {
                push_str(out, n.as_str());
                return;
            },
            None => {},
        }
        assert(ns.skip(i as int).drop_first() =~= ns.skip(i + 1));
        i += 1;
    }
    push_str(out, fallback);
}

/// `route:METHOD PATH`.
pub fn route_label(method: &str, path: &str) -> (r: String)
    ensures
        r@ == "route:"@ + method@ + " "@ + path@,
{
    let mut out: Vec<char> = Vec::new();
    push_str(&mut out, "route:");
    push_str(&mut out, method);
    push_str(&mut out, " ");
    push_str(&mut out, path);
    string_from_chars(&out)
}

/// `component:NAME`.
pub fn component_label(name: &str) -> (r: String)
    ensures
        r@ == "component:"@ + name@,
{
    let mut out: Vec<char> = Vec::new();
    push_str(&mut out, "component:");
    push_str(&mut out, name);
    string_from_chars(&out)
}

/// `module:NAME`, for an Angular component found as a module.
pub fn module_label(name: &str) -> (r: String)
    ensures
        r@ == "module:"@ + name@,
{
    let mut out: Vec<char> = Vec::new();
    push_str(&mut out, "module:");
    push_str(&mut out, name);
    string_from_chars(&out)
}

/// `data_access:TECHNOLOGY:KIND`.
pub fn data_access_label(technology: &str, kind: &str) -> (r: String)
    ensures
        r@ == "data_access:"@ + technology@ + ":"@ + kind@,
{
    let mut out: Vec<char> = Vec::new();
    push_str(&mut out, "data_access:");
    push_str(&mut out, technology);
    push_str(&mut out, ":");
    push_str(&mut out, kind);
    string_from_chars(&out)
}

/// `realtime:TECHNOLOGY:NAME`, where the name is the record's event name,
/// else its hub name, else its method name, else its kind; `names` holds
/// the first three in that order.
pub fn realtime_label(technology: &str, names: &Vec<Option<String>>, kind: &str) -> (r: String)
    ensures
        r@ == "realtime:"@ + technology@ + ":"@ + first_name(opt_texts(names@), kind@),
{
    let mut out: Vec<char> = Vec::new();
    push_str(&mut out, "realtime:");
    push_str(&mut out, technology);
    push_str(&mut out, ":");
    push_first_name(&mut out, names, kind);
    string_from_chars(&out)
}

/// `infrastructure:TECHNOLOGY:NAME`, where the name is the record's name,
/// else its kind.
pub fn infrastructure_label(technology: &str, name: &Option<String>, kind: &str) -> (r: String)
    ensures
        r@ == "infrastructure:"@ + technology@ + ":"@ + match name {
            Some(n) => n@,
            None => kind@,
        },
{
    let mut out: Vec<char> = Vec::new();
    push_str(&mut out, "infrastructure:");
    push_str(&mut out, technology);
    push_str(&mut out, ":");
    match name {
        Some(n) => push_str(&mut out, n.as_str()),
        None => push_str(&mut out, kind),
    }
    string_from_chars(&out)
}

} // verus!
