//! Helpers of the local benchmark harness: token estimates, query terms,
//! text clamps, file classification, and the records a benchmark run
//! reports.

pub mod config;
pub mod modes;
pub mod quality;
pub mod ranking;
pub mod semantic;
pub mod tasks;
pub mod workflow;

use vstd::prelude::*;

use crate::text::{char_width, char_width_exec, chars_of, ends_with, ends_with_str, contains, contains_str, is_alnum, is_alnum_exec, lower, lower_vec, occurs_at, occurs_at_vec, string_from_chars, strings_view, utf8_len, Lines};

verus! {

broadcast use vstd::string::group_string_axioms;

/// Tokens estimated from characters: a quarter, rounded up.
pub open spec fn token_estimate(chars: nat) -> nat {
    (chars + 3) / 4
}

/// Estimates tokens as characters divided by four, rounded up.
pub fn estimate_tokens(chars: usize) -> (r: usize)
    ensures
        r == token_estimate(chars as nat),
{
    chars / 4 + if chars % 4 == 0 {
        0
    } else {
        1
    }
}

/// The first `max_chars` characters of `text`.
pub fn clamp_chars(text: &str, max_chars: usize) -> (r: String)
    ensures
        r@ == text@.take(if text@.len() < max_chars {
            text@.len() as int
        } else {
            max_chars as int
        }),
{
    let s = chars_of(text);
    let n: usize = if s.len() < max_chars {
        s.len()
    } else {
        max_chars
    };
    let mut out: Vec<char> = Vec::new();
    let mut i: usize = 0;
    while i < n
        invariant
            n <= s.len(),
            s@ == text@,
            i <= n,
            out@ == s@.take(i as int),
        decreases n - i,
    {
        out.push(s[i]);
        i += 1;
        assert(out@ =~= s@.take(i as int));
    }
    string_from_chars(&out)
}

/// A character that belongs to a query term.
pub open spec fn term_char(c: char) -> bool {
    is_alnum(c) || c == '.'
}

/// Scans a query for terms: the pieces finished so far and the piece still
/// open, split at every character that is not a term character.
pub open spec fn term_scan(s: Seq<char>) -> (Lines, Seq<char>)
    decreases s.len(),
{
    if s.len() == 0 {
        (Seq::empty(), Seq::empty())
    } else {
        let (done, cur) = term_scan(s.drop_last());
        if term_char(s.last()) {
            (done, cur.push(s.last()))
        } else {
            (done.push(cur), Seq::empty())
        }
    }
}

/// Keeps the pieces longer than two characters, lowercased.
pub open spec fn long_lowered(pieces: Lines) -> Lines
    decreases pieces.len(),
{
    if pieces.len() == 0 {
        Seq::empty()
    } else if pieces.last().len() > 2 {
        long_lowered(pieces.drop_last()).push(lower(pieces.last()))
    } else {
        long_lowered(pieces.drop_last())
    }
}

/// The terms of a query: its runs of ASCII letters, digits and dots longer
/// than two characters, lowercased.
pub open spec fn query_terms(query: Seq<char>) -> Lines {
    let (done, cur) = term_scan(query);
    long_lowered(done.push(cur))
}

/// The terms of a query.
pub fn terms(query: &str) -> (r: Vec<String>)
    ensures
        strings_view(r@) == query_terms(query@),
{
    let s = chars_of(query);
    let mut pieces: Vec<Vec<char>> = Vec::new();
    let mut cur: Vec<char> = Vec::new();
    let mut i: usize = 0;
    while i < s.len()
        invariant
            i <= s.len(),
            s@ == query@,
            term_scan(s@.take(i as int)) == (crate::text::vv(pieces@), cur@),
        decreases s.len() - i,
    {
        assert(s@.take(i + 1).drop_last() =~= s@.take(i as int));
        let c = s[i];
        if is_alnum_exec(c) || c == '.' {
            cur.push(c);
        } else {
            let ghost before = crate::text::vv(pieces@);
            let ghost fin = cur@;
            pieces.push(cur);
            assert(crate::text::vv(pieces@) =~= before.push(fin));
            cur = Vec::new();
        }
        i += 1;
    }
    assert(s@.take(i as int) =~= s@);
    let ghost before = crate::text::vv(pieces@);
    let ghost fin = cur@;
    pieces.push(cur);
    assert(crate::text::vv(pieces@) =~= before.push(fin));
    let ghost pv = crate::text::vv(pieces@);
    let mut out: Vec<String> = Vec::new();
    let mut k: usize = 0;
    assert(pv.take(0) =~= Seq::<Seq<char>>::empty());
    while k < pieces.len()
        invariant
            pv == crate::text::vv(pieces@),
            k <= pieces.len(),
            strings_view(out@) == long_lowered(pv.take(k as int)),
        decreases pieces.len() - k,
    {
        assert(pv.take(k + 1).drop_last() =~= pv.take(k as int));
        assert(pv[k as int] == pieces@[k as int]@);
        if pieces[k].len() > 2 {
            let low = lower_vec(&pieces[k]);
            let ghost before = strings_view(out@);
            out.push(string_from_chars(&low));
            assert(strings_view(out@) =~= before.push(lower(pv[k as int])));
        }
        k += 1;
    }
    assert(pv.take(k as int) =~= pv);
    out
}

/// A result path matches an expected file when it ends with it.
pub fn expected_file_match(path: &str, expected_files: &Vec<String>) -> (r: bool)
    ensures
        r == exists|i: int|
            0 <= i < expected_files@.len() && ends_with(path@, (#[trigger] expected_files@[i])@),
{
    let p = chars_of(path);
    let mut i: usize = 0;
    while i < expected_files.len()
        invariant
            i <= expected_files.len(),
            p@ == path@,
            forall|j: int| 0 <= j < i ==> !ends_with(path@, (#[trigger] expected_files@[j])@),
        decreases expected_files.len() - i,
    {
        if ends_with_str(&p, expected_files[i].as_str()) {
            return true;
        }
        i += 1;
    }
    false
}

/// The language of a fixture file, from its extension.
pub open spec fn language_of(path: Seq<char>) -> Option<Seq<char>> {
    if ends_with(path, ".rs"@) {
        Some("rust"@)
    } else if ends_with(path, ".tsx"@) {
        Some("tsx"@)
    } else if ends_with(path, ".ts"@) {
        Some("typescript"@)
    } else if ends_with(path, ".cs"@) {
        Some("csharp"@)
    } else if ends_with(path, ".go"@) {
        Some("go"@)
    } else if ends_with(path, ".xaml"@) {
        Some("xaml"@)
    } else if ends_with(path, ".yaml"@) || ends_with(path, ".yml"@) {
        Some("yaml"@)
    } else {
        None
    }
}

pub open spec fn opt_text(o: Option<String>) -> Option<Seq<char>> {
    match o {
        Some(s) => Some(s@),
        None => None,
    }
}

/// The language of a fixture file, from its extension.
pub fn language_for_path(path: &str) -> (r: Option<String>)
    ensures
        opt_text(r) == language_of(path@),
{
    let p = chars_of(path);
    if ends_with_str(&p, ".rs") {
        Some("rust".to_owned())
    } else if ends_with_str(&p, ".tsx") {
        Some("tsx".to_owned())
    } else if ends_with_str(&p, ".ts") {
        Some("typescript".to_owned())
    } else if ends_with_str(&p, ".cs") {
        Some("csharp".to_owned())
    } else if ends_with_str(&p, ".go") {
        Some("go".to_owned())
    } else if ends_with_str(&p, ".xaml") {
        Some("xaml".to_owned())
    } else if ends_with_str(&p, ".yaml") || ends_with_str(&p, ".yml") {
        Some("yaml".to_owned())
    } else {
        None
    }
}

/// The framework of a fixture file, from its path and content.
pub open spec fn framework_of(path: Seq<char>, content: Seq<char>) -> Option<Seq<char>> {
    if contains(path, "OrderPanel"@) {
        Some("react"@)
    } else if contains(path, "next/"@) {
        Some("nextjs"@)
    } else if contains(path, "angular/"@) {
        Some("angular"@)
    } else if contains(path, "users.controller.ts"@) {
        Some("nestjs"@)
    } else if contains(path, "UsersController.cs"@) {
        Some("aspnetcore"@)
    } else if contains(path, "UserRepository.cs"@) {
        Some("dapper"@)
    } else if contains(path, "notifications"@) {
        Some("websocket"@)
    } else if contains(path, "deployment.yaml"@) {
        Some("kubernetes"@)
    } else if contains(path, "MainWindow.xaml"@) {
        Some("wpf"@)
    } else if ends_with(path, ".go"@) {
        Some("net/http"@)
    } else if contains(content, "payment.created"@) || contains(content, "order.created"@) {
        Some("messaging"@)
    } else {
        None
    }
}

/// The framework of a fixture file, from its path and content.
pub fn framework_for_path(path: &str, content: &str) -> (r: Option<String>)
    ensures
        opt_text(r) == framework_of(path@, content@),
{
    let p = chars_of(path);
    let c = chars_of(content);
    if contains_str(&p, "OrderPanel") {
        Some("react".to_owned())
    } else if contains_str(&p, "next/") {
        Some("nextjs".to_owned())
    } else if contains_str(&p, "angular/") {
        Some("angular".to_owned())
    } else if contains_str(&p, "users.controller.ts") {
        Some("nestjs".to_owned())
    } else if contains_str(&p, "UsersController.cs") {
        Some("aspnetcore".to_owned())
    } else if contains_str(&p, "UserRepository.cs") {
        Some("dapper".to_owned())
    } else if contains_str(&p, "notifications") {
        Some("websocket".to_owned())
    } else if contains_str(&p, "deployment.yaml") {
        Some("kubernetes".to_owned())
    } else if contains_str(&p, "MainWindow.xaml") {
        Some("wpf".to_owned())
    } else if ends_with_str(&p, ".go") {
        Some("net/http".to_owned())
    } else if contains_str(&c, "payment.created") || contains_str(&c, "order.created") {
        Some("messaging".to_owned())
    } else {
        None
    }
}

/// How much context a benchmark run selects.
#[derive(Debug, Clone, Copy, PartialEq, Eq, Structural)]
pub enum ContextProfile {
    Minimal,
    Balanced,
    Deep,
}

/// How many results a profile keeps.
pub open spec fn profile_top_k(p: ContextProfile) -> nat {
    match p {
        ContextProfile::Minimal => 3,
        ContextProfile::Balanced => 6,
        ContextProfile::Deep => 12,
    }
}

/// How many characters of each snippet a profile keeps.
pub open spec fn profile_snippet_chars(p: ContextProfile) -> nat {
    match p {
        ContextProfile::Minimal => 220,
        ContextProfile::Balanced => 420,
        ContextProfile::Deep => 800,
    }
}

/// A profile's name.
pub open spec fn profile_name(p: ContextProfile) -> Seq<char> {
    match p {
        ContextProfile::Minimal => "minimal"@,
        ContextProfile::Balanced => "balanced"@,
        ContextProfile::Deep => "deep"@,
    }
}

impl ContextProfile {
    pub fn name(self) -> (r: &'static str)
        ensures
            r@ == profile_name(self),
    {
        match self {
            ContextProfile::Minimal => "minimal",
            ContextProfile::Balanced => "balanced",
            ContextProfile::Deep => "deep",
        }
    }

    /// How many results the profile keeps.
    pub fn top_k(self) -> (r: usize)
        ensures
            r == profile_top_k(self),
    {
        match self {
            ContextProfile::Minimal => 3,
            ContextProfile::Balanced => 6,
            ContextProfile::Deep => 12,
        }
    }

    /// How many characters of each snippet the profile keeps.
    pub fn max_snippet_chars(self) -> (r: usize)
        ensures
            r == profile_snippet_chars(self),
    {
        match self {
            ContextProfile::Minimal => 220,
            ContextProfile::Balanced => 420,
            ContextProfile::Deep => 800,
        }
    }
}

/// How many tokens a selected context saves over reading every file.
#[derive(Debug, Clone, PartialEq, Eq)]
pub struct TokenSavingsSummary {
    pub naive_context_chars: usize,
    pub selected_context_chars: usize,
    pub estimated_naive_tokens: usize,
    pub estimated_selected_tokens: usize,
    pub estimated_token_reduction_percent: u8,
    pub estimate_method: String,
}

/// The token savings of selecting `selected_context_chars` characters out
/// of `naive_context_chars`; `reduction_percent` is the share saved, in
/// whole percent, as the benchmark measured it.
pub fn token_savings_summary(
    naive_context_chars: usize,
    selected_context_chars: usize,
    reduction_percent: u8,
) -> (r: TokenSavingsSummary)
    ensures
        r.naive_context_chars == naive_context_chars,
        r.selected_context_chars == selected_context_chars,
        r.estimated_naive_tokens == token_estimate(naive_context_chars as nat),
        r.estimated_selected_tokens == token_estimate(selected_context_chars as nat),
        r.estimated_token_reduction_percent == (if naive_context_chars == 0 {
            0
        } else {
            reduction_percent
        }),
        r.estimate_method@ == "chars divided by 4; fixture-local estimate only"@,
{
    TokenSavingsSummary {
        naive_context_chars,
        selected_context_chars,
        estimated_naive_tokens: estimate_tokens(naive_context_chars),
        estimated_selected_tokens: estimate_tokens(selected_context_chars),
        estimated_token_reduction_percent: if naive_context_chars == 0 {
            0
        } else {
            reduction_percent
        },
        estimate_method: "chars divided by 4; fixture-local estimate only".to_owned(),
    }
}

/// The kind of source chunk a fixture file yields.
#[derive(Debug, Clone, Copy, PartialEq, Eq, Structural)]
pub enum SourceKind {
    ComponentChunk,
    RouteChunk,
    DataAccessChunk,
    RealtimeChunk,
    MessagingChunk,
    InfrastructureChunk,
    WpfChunk,
    GoChunk,
    SymbolChunk,
}

/// The kind of chunk of a fixture file, from the names in its path.
pub open spec fn source_kind_of(path: Seq<char>) -> SourceKind {
    if contains(path, "OrderPanel"@) {
        SourceKind::ComponentChunk
    } else if contains(path, "users.controller"@) || contains(path, "api/orders/route"@) {
        SourceKind::RouteChunk
    } else if contains(path, "Repository"@) {
        SourceKind::DataAccessChunk
    } else if contains(path, "notifications"@) {
        SourceKind::RealtimeChunk
    } else if contains(path, "payments"@) {
        SourceKind::MessagingChunk
    } else if contains(path, "deployment.yaml"@) {
        SourceKind::InfrastructureChunk
    } else if contains(path, "MainWindow.xaml"@) {
        SourceKind::WpfChunk
    } else if ends_with(path, ".go"@) {
        SourceKind::GoChunk
    } else {
        SourceKind::SymbolChunk
    }
}

/// The kind of chunk of a fixture file, from the names in its path.
pub fn source_kind_for_path(path: &str) -> (r: SourceKind)
    ensures
        r == source_kind_of(path@),
{
    let v = chars_of(path);
    if contains_str(&v, "OrderPanel") {
        SourceKind::ComponentChunk
    } else if contains_str(&v, "users.controller") || contains_str(&v, "api/orders/route") {
        SourceKind::RouteChunk
    } else if contains_str(&v, "Repository") {
        SourceKind::DataAccessChunk
    } else if contains_str(&v, "notifications") {
        SourceKind::RealtimeChunk
    } else if contains_str(&v, "payments") {
        SourceKind::MessagingChunk
    } else if contains_str(&v, "deployment.yaml") {
        SourceKind::InfrastructureChunk
    } else if contains_str(&v, "MainWindow.xaml") {
        SourceKind::WpfChunk
    } else if ends_with_str(&v, ".go") {
        SourceKind::GoChunk
    } else {
        SourceKind::SymbolChunk
    }
}

/// The memory a benchmark run used, in kilobytes: not measured, so
/// always unknown.
pub fn rough_memory_kb() -> (r: Option<u64>)
    ensures
        r is None,
{
    None
}

/// What `str::to_lowercase` gives for a text: Unicode's full lowercase
/// mapping, which may change how many characters and bytes there are.
pub uninterp spec fn unicode_lowercase(s: Seq<char>) -> Seq<char>;

/// `str::to_lowercase`: the text in Unicode lowercase. Claims only that
/// the result is the one named by `unicode_lowercase`; nothing is said of
/// its length or of which characters map to which.
#[verifier::external_body]
pub(crate) fn to_lowercase_of(s: &str) -> (r: String)
    ensures
        r@ == unicode_lowercase(s@),
{
    s.to_lowercase()
}

/// The first character position at or after `i` where `p` occurs in `s`.
pub open spec fn find_from(s: Seq<char>, p: Seq<char>, i: int) -> Option<int>
    decreases s.len() + 1 - i,
{
    if i < 0 || i > s.len() {
        None
    } else if occurs_at(s, p, i) {
        Some(i)
    } else {
        find_from(s, p, i + 1)
    }
}

/// The byte offset (`str::find`) of the earliest place in `lowered` where
/// one of the terms occurs.
pub open spec fn first_hit(lowered: Seq<char>, terms: Lines) -> Option<nat>
    decreases terms.len(),
{
    if terms.len() == 0 {
        None
    } else {
        let rest = first_hit(lowered, terms.drop_last());
        match find_from(lowered, terms.last(), 0) {
            None => rest,
            Some(i) => {
                let b = utf8_len(lowered.take(i));
                match rest {
                    None => Some(b),
                    Some(r) => Some(if b < r { b } else { r }),
                }
            },
        }
    }
}

/// The position of the character that starts at byte `b`, looking from
/// character `k` on; `None` when no character starts there.
pub open spec fn char_at_byte(s: Seq<char>, b: nat, k: int) -> Option<nat>
    decreases s.len() + 1 - k,
{
    if k < 0 || k > s.len() {
        None
    } else if utf8_len(s.take(k)) == b {
        Some(k as nat)
    } else if utf8_len(s.take(k)) > b {
        None
    } else {
        char_at_byte(s, b, k + 1)
    }
}

/// The byte a snippet starts at: a quarter of its length before the
/// earliest hit of a query term in the lowercased content (or the start).
pub open spec fn snippet_start_byte(content: Seq<char>, query: Seq<char>, max_chars: nat) -> nat {
    let hit = match first_hit(unicode_lowercase(content), query_terms(query)) {
        Some(b) => b,
        None => 0,
    };
    if hit >= max_chars / 4 {
        (hit - max_chars / 4) as nat
    } else {
        0
    }
}

/// Where in `content` the snippet starts, when a character starts at its
/// byte.
pub open spec fn snippet_start(content: Seq<char>, query: Seq<char>, max_chars: nat) -> Option<nat> {
    char_at_byte(content, snippet_start_byte(content, query, max_chars), 0)
}

/// The snippet: at most `max_chars` characters of `content` from `start`.
pub open spec fn snippet_from(content: Seq<char>, start: nat, max_chars: nat) -> Seq<char> {
    let rest = content.skip(start as int);
    rest.take(if rest.len() < max_chars { rest.len() as int } else { max_chars as int })
}

proof fn lemma_utf8_take_step(s: Seq<char>, k: int)
    requires
        0 <= k < s.len(),
    ensures
        utf8_len(s.take(k + 1)) == utf8_len(s.take(k)) + char_width(s[k]),
{
    assert(s.take(k + 1).drop_last() =~= s.take(k));
}

/// The byte offset of character `i` in `s`.
fn byte_offset(s: &Vec<char>, i: usize) -> (r: u128)
    requires
        i <= s.len(),
    ensures
        r == utf8_len(s@.take(i as int)),
{
    let mut acc: u128 = 0;
    let mut k: usize = 0;
    assert(s@.take(0) =~= Seq::<char>::empty());
    while k < i
        invariant
            k <= i <= s.len(),
            acc == utf8_len(s@.take(k as int)),
            acc <= 4 * k,
        decreases i - k,
    {
        proof {
            lemma_utf8_take_step(s@, k as int);
        }
        acc = acc + char_width_exec(s[k]) as u128;
        k += 1;
    }
    acc
}

/// A place found is within the text.
proof fn lemma_find_from_bound(s: Seq<char>, p: Seq<char>, i: int)
    ensures
        find_from(s, p, i) is Some ==> 0 <= find_from(s, p, i)->Some_0 <= s.len(),
    decreases s.len() + 1 - i,
{
    if 0 <= i <= s.len() && !occurs_at(s, p, i) {
        lemma_find_from_bound(s, p, i + 1);
    }
}

/// An earliest hit lies within the text's bytes.
proof fn lemma_first_hit_bound(lowered: Seq<char>, terms: Lines)
    ensures
        first_hit(lowered, terms) is Some ==> first_hit(lowered, terms)->Some_0 <= 4 * lowered.len(),
    decreases terms.len(),
{
    if terms.len() > 0 {
        lemma_first_hit_bound(lowered, terms.drop_last());
        lemma_find_from_bound(lowered, terms.last(), 0);
        if find_from(lowered, terms.last(), 0) is Some {
            let i = find_from(lowered, terms.last(), 0)->Some_0;
            crate::text::lemma_utf8_len_bound(lowered.take(i));
        }
    }
}

/// The first position where `p` occurs in `s`.
fn find_chars(s: &Vec<char>, p: &Vec<char>) -> (r: Option<usize>)
    ensures
        match find_from(s@, p@, 0) {
            Some(i) => r is Some && r->Some_0 == i,
            None => r is None,
        },
        r is Some ==> r->Some_0 <= s.len(),
{
    let mut i: usize = 0;
    while i < s.len()
        invariant
            i <= s.len(),
            find_from(s@, p@, 0) == find_from(s@, p@, i as int),
        decreases s.len() - i,
    {
        if occurs_at_vec(s, p, i) {
            return Some(i);
        }
        i += 1;
    }
    if occurs_at_vec(s, p, i) {
        return Some(i);
    }
    assert(find_from(s@, p@, i + 1) == None::<int>);
    None
}

/// The earliest hit of the terms in `lowered`, as a byte offset.
fn earliest_hit(lowered: &Vec<char>, terms: &Vec<String>) -> (r: Option<u128>)
    ensures
        match first_hit(lowered@, strings_view(terms@)) {
            Some(b) => r is Some && r->Some_0 == b,
            None => r is None,
        },
        r is Some ==> r->Some_0 <= 4 * lowered.len(),
{
    let ghost ts = strings_view(terms@);
    let mut best: Option<u128> = None;
    let mut j: usize = 0;
    assert(ts.take(0) =~= Seq::<Seq<char>>::empty());
    while j < terms.len()
        invariant
            ts == strings_view(terms@),
            j <= terms.len(),
            match first_hit(lowered@, ts.take(j as int)) {
                Some(b) => best is Some && best->Some_0 == b,
                None => best is None,
            },
            best is Some ==> best->Some_0 <= 4 * lowered.len(),
        decreases terms.len() - j,
    {
        proof {
            lemma_first_hit_bound(lowered@, ts.take(j + 1));
        }
        assert(ts.take(j + 1).drop_last() =~= ts.take(j as int));
        assert(ts.take(j + 1).last() == terms@[j as int]@);
        let t = chars_of(terms[j].as_str());
        match find_chars(lowered, &t) {
            Some(i) => {
                let b = byte_offset(lowered, i);
                proof {
                    crate::text::lemma_utf8_len_bound(lowered@.take(i as int));
                }
                best = match best {
                    None => Some(b),
                    Some(r) => Some(if b < r { b } else { r }),
                };
            },
            None => {},
        }
        j += 1;
    }
    assert(ts.take(j as int) =~= ts);
    best
}

/// The position of the character of `s` that starts at byte `b`.
fn char_index_at_byte(s: &Vec<char>, b: u128) -> (r: Option<usize>)
    ensures
        match char_at_byte(s@, b as nat, 0) {
            Some(k) => r is Some && r->Some_0 == k,
            None => r is None,
        },
        r is Some ==> r->Some_0 <= s.len(),
{
    let mut acc: u128 = 0;
    let mut k: usize = 0;
    assert(s@.take(0) =~= Seq::<char>::empty());
    while k < s.len() && acc < b
        invariant
            k <= s.len(),
            acc == utf8_len(s@.take(k as int)),
            acc <= 4 * k,
            char_at_byte(s@, b as nat, 0) == char_at_byte(s@, b as nat, k as int),
        decreases s.len() - k,
    {
        proof {
            lemma_utf8_take_step(s@, k as int);
        }
        acc = acc + char_width_exec(s[k]) as u128;
        k += 1;
    }
    if acc == b {
        Some(k)
    } else {
        proof {
            if acc < b {
                assert(k == s.len());
                assert(char_at_byte(s@, b as nat, k + 1) == None::<nat>);
            }
        }
        None
    }
}

fn snippet_core(content: &str, query: &str, max_chars: usize) -> (r: Option<String>)
    ensures
        match snippet_start(content@, query@, max_chars as nat) {
            Some(k) => r is Some && r->Some_0@ == snippet_from(content@, k, max_chars as nat),
            None => r is None,
        },
{
    let lowered = to_lowercase_of(content);
    let lv = chars_of(lowered.as_str());
    let ts = terms(query);
    let hit: u128 = match earliest_hit(&lv, &ts) {
        Some(b) => b,
        None => 0,
    };
    let quarter = (max_chars / 4) as u128;
    let start_byte: u128 = if hit >= quarter {
        hit - quarter
    } else {
        0
    };
    assert(start_byte == snippet_start_byte(content@, query@, max_chars as nat));
    let cv = chars_of(content);
    match char_index_at_byte(&cv, start_byte) {
        Some(k) => {
            let n: usize = if cv.len() - k < max_chars {
                cv.len() - k
            } else {
                max_chars
            };
            let mut out: Vec<char> = Vec::new();
            let mut i: usize = 0;
            while i < n
                invariant
                    k <= cv.len(),
                    n <= cv.len() - k,
                    i <= n,
                    out@ == cv@.skip(k as int).take(i as int),
                decreases n - i,
            {
                out.push(cv[k + i]);
                i += 1;
                assert(out@ =~= cv@.skip(k as int).take(i as int));
            }
            Some(string_from_chars(&out))
        },
        None => None,
    }
}

/// The part of `content` shown for a query: at most `max_chars`
/// characters from a quarter of that length before the earliest hit of a
/// query term in the lowercased content. The hit's byte offset, taken in
/// the lowercased text, must start a character of `content`.
pub fn best_snippet(content: &str, query: &str, max_chars: usize) -> (r: String)
    requires
        snippet_start(content@, query@, max_chars as nat) is Some,
    ensures
        r@ == snippet_from(content@, snippet_start(content@, query@, max_chars as nat)->Some_0, max_chars as nat),
{
    match snippet_core(content, query, max_chars) {
        Some(s) => s,
        None => String::new(),
    }
}

/// The snippet of `best_snippet`, or `None` when the hit's byte offset
/// does not start a character of `content` (where slicing the content
/// there would fail).
pub fn checked_best_snippet(content: &str, query: &str, max_chars: usize) -> (r: Option<String>)
    ensures
        match snippet_start(content@, query@, max_chars as nat) {
            Some(k) => r is Some && r->Some_0@ == snippet_from(content@, k, max_chars as nat),
            None => r is None,
        },
{
    if snippet_core(content, query, max_chars).is_some() {
        Some(best_snippet(content, query, max_chars))
    } else {
        None
    }
}

} // verus!
