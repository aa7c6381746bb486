//! Messaging scope targets: how a `messaging` scope value asks storage
//! for messages, which of the records storage returns it keeps, and how a
//! kept record is labelled.
use vstd::prelude::*;

use crate::text::{
    chars_of, eq_str, first_index, first_index_exec, push_chars, push_str, slice_chars,
    string_from_chars,
};

verus! {

broadcast use vstd::string::group_string_axioms;

/// The text before and after the first `=` (`str::split_once`), if there
/// is one.
pub open spec fn split_eq(s: Seq<char>) -> Option<(Seq<char>, Seq<char>)> {
    let i = first_index(s, '=');
    if i < s.len() {
        Some((s.take(i as int), s.skip(i as int + 1)))
    } else {
        None
    }
}

fn split_at_eq(v: &Vec<char>) -> (r: Option<(Vec<char>, Vec<char>)>)
    ensures
        match split_eq(v@) {
            Some((a, b)) => r is Some && r->Some_0.0@ == a && r->Some_0.1@ == b,
            None => r is None,
        },
{
    let i = first_index_exec(v, '=');
    if i < v.len() {
        let a = slice_chars(v, 0, i);
        let b = slice_chars(v, i + 1, v.len());
        assert(a@ =~= v@.take(i as int));
        assert(b@ =~= v@.skip(i as int + 1));
        Some((a, b))
    } else {
        None
    }
}

/// The storage filters a messaging scope value names: `topic=`, `queue=`
/// or `routing_key=` one of them; any other value none.
pub open spec fn messaging_filters(value: Seq<char>) -> (Option<Seq<char>>, Option<Seq<char>>, Option<Seq<char>>) {
    match split_eq(value) {
        Some((f, v)) => if f == "topic"@ {
            (Some(v), None, None)
        } else if f == "queue"@ {
            (None, Some(v), None)
        } else if f == "routing_key"@ {
            (None, None, Some(v))
        } else {
            (None, None, None)
        },
        None => (None, None, None),
    }
}

fn text_of(v: &Vec<char>) -> (r: String)
    ensures
        r@ == v@,
{
    string_from_chars(v)
}

/// The topic, queue and routing-key filters of a messaging scope value.
pub fn messaging_lookup(value: &str) -> (r: (Option<String>, Option<String>, Option<String>))
    ensures
        ({
            let (t, q, k) = messaging_filters(value@);
            &&& match t {
                Some(x) => r.0 is Some && r.0->Some_0@ == x,
                None => r.0 is None,
            }
            &&& match q {
                Some(x) => r.1 is Some && r.1->Some_0@ == x,
                None => r.1 is None,
            }
            &&& match k {
                Some(x) => r.2 is Some && r.2->Some_0@ == x,
                None => r.2 is None,
            }
        }),
{
    let v = chars_of(value);
    match split_at_eq(&v) {
        Some((f, x)) => {
            if eq_str(&f, "topic") {
                (Some(text_of(&x)), None, None)
            } else if eq_str(&f, "queue") {
                (None, Some(text_of(&x)), None)
            } else if eq_str(&f, "routing_key") {
                (None, None, Some(text_of(&x)))
            } else {
                (None, None, None)
            }
        },
        None => (None, None, None),
    }
}

/// Whether a messaging record storage returned fits the scope value:
/// `exchange=` and `pattern=` values must equal the record's; other
/// `field=value` forms keep every record; a bare value must be the
/// record's technology.
pub open spec fn record_fits(value: Seq<char>, exchange: Option<Seq<char>>, pattern: Option<Seq<char>>, technology: Seq<char>) -> bool {
    match split_eq(value) {
        Some((f, v)) => if f == "exchange"@ {
            exchange == Some(v)
        } else if f == "pattern"@ {
            pattern == Some(v)
        } else {
            true
        },
        None => technology == value,
    }
}

fn opt_eq(o: Option<&str>, v: &Vec<char>) -> (r: bool)
    ensures
        r == (match o {
            Some(s) => Some(s@),
            None => None,
        } == Some(v@)),
{
    match o {
        Some(s) => crate::text::eq_vec(&chars_of(s), v),
        None => false,
    }
}

/// Whether a messaging record fits the scope value (see `record_fits`).
pub fn messaging_record_matches(value: &str, exchange: Option<&str>, pattern: Option<&str>, technology: &str) -> (r: bool)
    ensures
        r == record_fits(
            value@,
            match exchange {
                Some(s) => Some(s@),
                None => None,
            },
            match pattern {
                Some(s) => Some(s@),
                None => None,
            },
            technology@,
        ),
{
    let v = chars_of(value);
    match split_at_eq(&v) {
        Some((f, x)) => {
            if eq_str(&f, "exchange") {
                opt_eq(exchange, &x)
            } else if eq_str(&f, "pattern") {
                opt_eq(pattern, &x)
            } else {
                true
            }
        },
        None => crate::text::str_eq(technology, value),
    }
}

/// The label of a messaging target: `messaging:`, the technology, `:`,
/// then the first of topic, queue, routing key, exchange and pattern the
/// record has, else its kind.
pub open spec fn messaging_label_text(
    technology: Seq<char>,
    names: Seq<Option<Seq<char>>>,
    kind: Seq<char>,
) -> Seq<char>
    decreases names.len(),
{
    if names.len() == 0 {
        "messaging:"@ + technology + ":"@ + kind
    } else {
        match names[0] {
            Some(n) => "messaging:"@ + technology + ":"@ + n,
            None => messaging_label_text(technology, names.drop_first(), kind),
        }
    }
}

/// The label of a messaging target; `names` are the record's topic,
/// queue, routing key, exchange and pattern, in that order.
pub fn messaging_label(technology: &str, names: &Vec<Option<String>>, kind: &str) -> (r: String)
    ensures
        r@ == messaging_label_text(
            technology@,
            names@.map_values(|o: Option<String>| match o {
                Some(s) => Some(s@),
                None => None,
            }),
            kind@,
        ),
{
    let ghost ns = names@.map_values(|o: Option<String>| match o {
        Some(s) => Some(s@),
        None => None,
    });
    let mut i: usize = 0;
    assert(ns.skip(0) =~= ns);
    while i < names.len()
        invariant
            i <= names.len(),
            ns == names@.map_values(|o: Option<String>| match o {
                Some(s) => Some(s@),
                None => None,
            }),
            messaging_label_text(technology@, ns, kind@) == messaging_label_text(technology@, ns.skip(i as int), kind@),
        decreases names.len() - i,
    {
        assert(ns.skip(i as int)[0] == ns[i as int]);
        match &names[i] {
            Some(n) => {
                let mut out: Vec<char> = Vec::new();
                push_str(&mut out, "messaging:");
                push_str(&mut out, technology);
                push_str(&mut out, ":");
                push_str(&mut out, n.as_str());
                return string_from_chars(&out);
            },
            None => {},
        }
        assert(ns.skip(i as int).drop_first() =~= ns.skip(i + 1));
        i += 1;
    }
    let mut out: Vec<char> = Vec::new();
    push_str(&mut out, "messaging:");
    push_str(&mut out, technology);
    push_str(&mut out, ":");
    push_str(&mut out, kind);
    string_from_chars(&out)
}

} // verus!
