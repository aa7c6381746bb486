//! The control server's request rules: query scopes, graph request bounds,
//! edge filtering and summaries, and the local project commands' options.
//! Serving HTTP happens elsewhere; these functions decide what a request
//! asks for and whether it is allowed.

pub mod graph;
pub mod walk;
pub mod cycles;
pub mod server_args;
pub mod neighbors;
pub mod scope_targets;
pub mod target_labels;


use vstd::prelude::*;

use crate::text::{
    chars_of, dec, has_non_ws, has_non_ws_vec, push_dec, push_str, starts_with, starts_with_str,
    string_from_chars,
};

verus! {

broadcast use vstd::string::group_string_axioms;

/// Results returned when a request names no limit.
pub const DEFAULT_LIMIT: usize = 50;

/// The most results a request may ask for.
pub const MAX_LIMIT: usize = 200;

/// The graph depth used when a request names none.
pub const DEFAULT_GRAPH_DEPTH: u8 = 1;

/// The deepest graph walk a request may ask for.
pub const MAX_GRAPH_DEPTH: u8 = 3;

/// The highest confidence a request may ask for, in basis points.
pub const MAX_CONFIDENCE: u16 = 10000;

/// A refused or failed request: an HTTP status code and a message.
#[derive(Debug, Clone, PartialEq, Eq)]
pub struct ControlError {
    pub status: u16,
    pub message: String,
}

impl ControlError {
    /// A request the server refuses (400).
    pub fn bad_request(message: String) -> (r: ControlError)
        ensures
            r.status == 400,
            r.message == message,
    {
        ControlError { status: 400, message }
    }

    /// A request for something that does not exist (404).
    pub fn not_found(message: String) -> (r: ControlError)
        ensures
            r.status == 404,
            r.message == message,
    {
        ControlError { status: 404, message }
    }
}

/// `Err` with a refusal whose message is `msg`.
pub open spec fn refused<T>(r: Result<T, ControlError>, msg: Seq<char>) -> bool {
    r is Err && r->Err_0.status == 400 && r->Err_0.message@ == msg
}

fn bad(msg: &str) -> (r: ControlError)
    ensures
        r.status == 400,
        r.message@ == msg@,
{
    ControlError::bad_request(msg.to_owned())
}

/// The part of the code graph a query reads.
#[derive(Debug, Clone, PartialEq, Eq)]
pub struct QueryScope {
    pub project_id: String,
    pub branch_id: Option<String>,
    pub path_prefix: Option<String>,
}

/// Why a scope is refused, if it is.
pub open spec fn scope_error(s: QueryScope) -> Option<Seq<char>> {
    if !has_non_ws(s.project_id@) {
        Some("scope.project_id is required"@)
    } else if s.branch_id is Some && s.branch_id->Some_0@.len() == 0 {
        Some("scope.branch_id must not be empty when provided"@)
    } else if s.path_prefix is Some && s.path_prefix->Some_0@.len() == 0 {
        Some("scope.path_prefix must not be empty when provided"@)
    } else {
        None
    }
}

/// `Ok` exactly when `err` is `None`, else a refusal with its message.
pub open spec fn checked(r: Result<(), ControlError>, err: Option<Seq<char>>) -> bool {
    match err {
        Some(m) => refused(r, m),
        None => r is Ok,
    }
}

fn is_empty_text(s: &String) -> (r: bool)
    ensures
        r == (s@.len() == 0),
{
    s.as_str().unicode_len() == 0
}

impl QueryScope {
    /// Requires a project id, and no empty branch or path prefix.
    pub fn validate(&self) -> (r: Result<(), ControlError>)
        ensures
            checked(r, scope_error(*self)),
    {
        if !has_non_ws_vec(&chars_of(self.project_id.as_str())) {
            return Err(bad("scope.project_id is required"));
        }
        match &self.branch_id {
            Some(b) => {
                if is_empty_text(b) {
                    return Err(bad("scope.branch_id must not be empty when provided"));
                }
            },
            None => {},
        }
        match &self.path_prefix {
            Some(p) => {
                if is_empty_text(p) {
                    return Err(bad("scope.path_prefix must not be empty when provided"));
                }
            },
            None => {},
        }
        Ok(())
    }

    /// The branch named, else `main`.
    pub fn branch_id_or_default(&self) -> (r: String)
        ensures
            r@ == match self.branch_id {
                Some(b) => b@,
                None => "main"@,
            },
    {
        match &self.branch_id {
            Some(b) => b.clone(),
            None => "main".to_owned(),
        }
    }
}

/// A query request.
#[derive(Debug, Clone, PartialEq, Eq)]
pub struct QueryApiRequest {
    pub query: Option<String>,
    pub symbol: Option<String>,
    pub scope: QueryScope,
    pub include_trace: Option<bool>,
    pub limit: Option<usize>,
    pub token_budget: Option<usize>,
}

impl QueryApiRequest {
    /// Requires a valid scope and a non-zero limit.
    pub fn validate(&self) -> (r: Result<(), ControlError>)
        ensures
            checked(
                r,
                match scope_error(self.scope) {
                    Some(e) => Some(e),
                    None => if self.limit.unwrap_or(DEFAULT_LIMIT) == 0 {
                        Some("limit must be greater than zero"@)
                    } else {
                        None
                    },
                },
            ),
    {
        match self.scope.validate() {
            Ok(()) => {},
            Err(e) => {
                return Err(e);
            },
        }
        let limit = match self.limit {
            Some(l) => l,
            None => DEFAULT_LIMIT,
        };
        if limit == 0 {
            return Err(bad("limit must be greater than zero"));
        }
        Ok(())
    }
}

/// The limit in force: the one asked for (else the default), at most the
/// maximum.
pub fn bounded_limit(limit: Option<usize>) -> (r: usize)
    ensures
        r == (if limit.unwrap_or(DEFAULT_LIMIT) < MAX_LIMIT {
            limit.unwrap_or(DEFAULT_LIMIT)
        } else {
            MAX_LIMIT
        }),
{
    let l = match limit {
        Some(l) => l,
        None => DEFAULT_LIMIT,
    };
    if l < MAX_LIMIT {
        l
    } else {
        MAX_LIMIT
    }
}

/// Why a graph limit is refused, if it is.
pub open spec fn limit_error(limit: Option<usize>) -> Option<Seq<char>> {
    let l = limit.unwrap_or(DEFAULT_LIMIT);
    if l == 0 {
        Some("limit must be greater than zero"@)
    } else if l > MAX_LIMIT {
        Some("limit must be less than or equal to "@ + dec(MAX_LIMIT as nat))
    } else {
        None
    }
}

/// The graph limit asked for (else the default), refused when zero or over
/// the maximum.
pub fn checked_graph_limit(limit: Option<usize>) -> (r: Result<usize, ControlError>)
    ensures
        match limit_error(limit) {
            Some(m) => refused(r, m),
            None => r == Ok::<usize, ControlError>(limit.unwrap_or(DEFAULT_LIMIT)),
        },
{
    let l = match limit {
        Some(l) => l,
        None => DEFAULT_LIMIT,
    };
    if l == 0 {
        return Err(bad("limit must be greater than zero"));
    }
    if l > MAX_LIMIT {
        let mut out: Vec<char> = Vec::new();
        push_str(&mut out, "limit must be less than or equal to ");
        push_dec(&mut out, MAX_LIMIT);
        return Err(ControlError::bad_request(string_from_chars(&out)));
    }
    Ok(l)
}

/// Why a graph depth is refused, if it is.
pub open spec fn depth_error(depth: Option<u8>) -> Option<Seq<char>> {
    let d = depth.unwrap_or(DEFAULT_GRAPH_DEPTH);
    if d == 0 {
        Some("max_depth must be greater than zero"@)
    } else if d > MAX_GRAPH_DEPTH {
        Some("max_depth must be less than or equal to "@ + dec(MAX_GRAPH_DEPTH as nat))
    } else {
        None
    }
}

/// The graph depth asked for (else the default), refused when zero or over
/// the maximum.
pub fn checked_graph_depth(depth: Option<u8>) -> (r: Result<u8, ControlError>)
    ensures
        match depth_error(depth) {
            Some(m) => refused(r, m),
            None => r == Ok::<u8, ControlError>(depth.unwrap_or(DEFAULT_GRAPH_DEPTH)),
        },
{
    let d = match depth {
        Some(d) => d,
        None => DEFAULT_GRAPH_DEPTH,
    };
    if d == 0 {
        return Err(bad("max_depth must be greater than zero"));
    }
    if d > MAX_GRAPH_DEPTH {
        let mut out: Vec<char> = Vec::new();
        push_str(&mut out, "max_depth must be less than or equal to ");
        push_dec(&mut out, MAX_GRAPH_DEPTH as usize);
        return Err(ControlError::bad_request(string_from_chars(&out)));
    }
    Ok(d)
}

/// Why a confidence floor is refused, if it is.
pub open spec fn confidence_error(confidence: Option<u16>) -> Option<Seq<char>> {
    if confidence.unwrap_or(0) > MAX_CONFIDENCE {
        Some("min_confidence must be less than or equal to 10000"@)
    } else {
        None
    }
}

/// The confidence floor asked for (else zero), refused over the maximum.
pub fn checked_confidence(confidence: Option<u16>) -> (r: Result<u16, ControlError>)
    ensures
        match confidence_error(confidence) {
            Some(m) => refused(r, m),
            None => r == Ok::<u16, ControlError>(confidence.unwrap_or(0)),
        },
{
    let c = match confidence {
        Some(c) => c,
        None => 0,
    };
    if c > MAX_CONFIDENCE {
        return Err(bad("min_confidence must be less than or equal to 10000"));
    }
    Ok(c)
}

/// Why an optional id is refused, if it is: it is given and empty.
pub open spec fn optional_id_error(value: Option<Seq<char>>, field: Seq<char>) -> Option<Seq<char>> {
    match value {
        Some(v) => if v.len() == 0 {
            Some(field + " must not be empty when provided"@)
        } else {
            None
        },
        None => None,
    }
}

pub open spec fn opt_text(o: Option<String>) -> Option<Seq<char>> {
    match o {
        Some(s) => Some(s@),
        None => None,
    }
}

/// Refuses an id that is given but empty.
pub fn validate_optional_id(value: Option<&str>, field: &str) -> (r: Result<(), ControlError>)
    ensures
        checked(
            r,
            optional_id_error(
                match value {
                    Some(v) => Some(v@),
                    None => None,
                },
                field@,
            ),
        ),
{
    match value {
        Some(v) => {
            if v.unicode_len() == 0 {
                let mut out: Vec<char> = Vec::new();
                push_str(&mut out, field);
                push_str(&mut out, " must not be empty when provided");
                return Err(ControlError::bad_request(string_from_chars(&out)));
            }
            Ok(())
        },
        None => Ok(()),
    }
}

fn optional_str(o: &Option<String>) -> (r: Option<&str>)
    ensures
        match r {
            Some(s) => o is Some && s@ == o->Some_0@,
            None => o is None,
        },
{
    match o {
        Some(s) => Some(s.as_str()),
        None => None,
    }
}

/// The first of several checks that fails, if any.
pub open spec fn first_error(errs: Seq<Option<Seq<char>>>) -> Option<Seq<char>>
    decreases errs.len(),
{
    if errs.len() == 0 {
        None
    } else if errs[0] is Some {
        errs[0]
    } else {
        first_error(errs.drop_first())
    }
}

/// Which way a graph walk follows edges.
#[derive(Debug, Clone, Copy, PartialEq, Eq, Structural)]
pub enum GraphDirection {
    Inbound,
    Outbound,
    Both,
}

impl Default for GraphDirection {
    fn default() -> (r: GraphDirection)
        ensures
            r == GraphDirection::Both,
    {
        GraphDirection::Both
    }
}

/// A request for the neighbours of a node.
#[derive(Debug, Clone, PartialEq, Eq)]
pub struct GraphNeighborsRequest {
    pub scope: QueryScope,
    pub seed_node_id: Option<String>,
    pub seed_symbol_id: Option<String>,
    pub node_id: Option<String>,
    pub direction: Option<GraphDirection>,
    pub depth: Option<u8>,
    pub max_depth: Option<u8>,
    pub limit: Option<usize>,
    pub min_confidence: Option<u16>,
    pub edge_types: Option<Vec<String>>,
}

/// The depth a request asks for: `max_depth`, else `depth`.
pub open spec fn requested_depth(max_depth: Option<u8>, depth: Option<u8>) -> Option<u8> {
    match max_depth {
        Some(d) => Some(d),
        None => depth,
    }
}

impl GraphNeighborsRequest {
    /// Requires a valid scope, no empty ids, and depth, limit and
    /// confidence within bounds; the first failing check is reported.
    pub fn validate(&self) -> (r: Result<(), ControlError>)
        ensures
            checked(
                r,
                first_error(
                    seq![
                        scope_error(self.scope),
                        optional_id_error(opt_text(self.seed_node_id), "seed_node_id"@),
                        optional_id_error(opt_text(self.seed_symbol_id), "seed_symbol_id"@),
                        optional_id_error(opt_text(self.node_id), "node_id"@),
                        depth_error(requested_depth(self.max_depth, self.depth)),
                        limit_error(self.limit),
                        confidence_error(self.min_confidence),
                    ],
                ),
            ),
    {
        reveal_with_fuel(first_error, 8);
        match self.scope.validate() {
            Ok(()) => {},
            Err(e) => {
                return Err(e);
            },
        }
        match validate_optional_id(optional_str(&self.seed_node_id), "seed_node_id") {
            Ok(()) => {},
            Err(e) => {
                return Err(e);
            },
        }
        match validate_optional_id(optional_str(&self.seed_symbol_id), "seed_symbol_id") {
            Ok(()) => {},
            Err(e) => {
                return Err(e);
            },
        }
        match validate_optional_id(optional_str(&self.node_id), "node_id") {
            Ok(()) => {},
            Err(e) => {
                return Err(e);
            },
        }
        let depth = match self.max_depth {
            Some(d) => Some(d),
            None => self.depth,
        };
        match checked_graph_depth(depth) {
            Ok(_) => {},
            Err(e) => {
                return Err(e);
            },
        }
        match checked_graph_limit(self.limit) {
            Ok(_) => {},
            Err(e) => {
                return Err(e);
            },
        }
        match checked_confidence(self.min_confidence) {
            Ok(_) => {},
            Err(e) => {
                return Err(e);
            },
        }
        Ok(())
    }
}

/// A request for a path between two nodes.
#[derive(Debug, Clone, PartialEq, Eq)]
pub struct GraphPathRequest {
    pub scope: QueryScope,
    pub source_node_id: Option<String>,
    pub target_node_id: Option<String>,
    pub from_node_id: Option<String>,
    pub to_node_id: Option<String>,
    pub depth: Option<u8>,
    pub max_depth: Option<u8>,
    pub limit: Option<usize>,
    pub min_confidence: Option<u16>,
    pub edge_types: Option<Vec<String>>,
}

impl GraphPathRequest {
    /// Requires a valid scope, no empty ids, and depth, limit and
    /// confidence within bounds; the first failing check is reported.
    pub fn validate(&self) -> (r: Result<(), ControlError>)
        ensures
            checked(
                r,
                first_error(
                    seq![
                        scope_error(self.scope),
                        optional_id_error(opt_text(self.source_node_id), "source_node_id"@),
                        optional_id_error(opt_text(self.target_node_id), "target_node_id"@),
                        optional_id_error(opt_text(self.from_node_id), "from_node_id"@),
                        optional_id_error(opt_text(self.to_node_id), "to_node_id"@),
                        depth_error(requested_depth(self.max_depth, self.depth)),
                        limit_error(self.limit),
                        confidence_error(self.min_confidence),
                    ],
                ),
            ),
    {
        reveal_with_fuel(first_error, 9);
        match self.scope.validate() {
            Ok(()) => {},
            Err(e) => {
                return Err(e);
            },
        }
        match validate_optional_id(optional_str(&self.source_node_id), "source_node_id") {
            Ok(()) => {},
            Err(e) => {
                return Err(e);
            },
        }
        match validate_optional_id(optional_str(&self.target_node_id), "target_node_id") {
            Ok(()) => {},
            Err(e) => {
                return Err(e);
            },
        }
        match validate_optional_id(optional_str(&self.from_node_id), "from_node_id") {
            Ok(()) => {},
            Err(e) => {
                return Err(e);
            },
        }
        match validate_optional_id(optional_str(&self.to_node_id), "to_node_id") {
            Ok(()) => {},
            Err(e) => {
                return Err(e);
            },
        }
        let depth = match self.max_depth {
            Some(d) => Some(d),
            None => self.depth,
        };
        match checked_graph_depth(depth) {
            Ok(_) => {},
            Err(e) => {
                return Err(e);
            },
        }
        match checked_graph_limit(self.limit) {
            Ok(_) => {},
            Err(e) => {
                return Err(e);
            },
        }
        match checked_confidence(self.min_confidence) {
            Ok(_) => {},
            Err(e) => {
                return Err(e);
            },
        }
        Ok(())
    }
}

/// A request for the cycles of the graph.
#[derive(Debug, Clone, PartialEq, Eq)]
pub struct GraphCyclesRequest {
    pub scope: QueryScope,
    pub limit: Option<usize>,
    pub min_confidence: Option<u16>,
    pub edge_types: Option<Vec<String>>,
}

impl GraphCyclesRequest {
    /// Requires a valid scope, and limit and confidence within bounds.
    pub fn validate(&self) -> (r: Result<(), ControlError>)
        ensures
            checked(
                r,
                first_error(
                    seq![
                        scope_error(self.scope),
                        limit_error(self.limit),
                        confidence_error(self.min_confidence),
                    ],
                ),
            ),
    {
        reveal_with_fuel(first_error, 4);
        match self.scope.validate() {
            Ok(()) => {},
            Err(e) => {
                return Err(e);
            },
        }
        match checked_graph_limit(self.limit) {
            Ok(_) => {},
            Err(e) => {
                return Err(e);
            },
        }
        match checked_confidence(self.min_confidence) {
            Ok(_) => {},
            Err(e) => {
                return Err(e);
            },
        }
        Ok(())
    }
}

/// A request for the most central nodes.
#[derive(Debug, Clone, PartialEq, Eq)]
pub struct GraphCentralityRequest {
    pub scope: QueryScope,
    pub limit: Option<usize>,
}

impl GraphCentralityRequest {
    /// Requires a valid scope and a limit within bounds.
    pub fn validate(&self) -> (r: Result<(), ControlError>)
        ensures
            checked(r, first_error(seq![scope_error(self.scope), limit_error(self.limit)])),
    {
        reveal_with_fuel(first_error, 3);
        match self.scope.validate() {
            Ok(()) => {},
            Err(e) => {
                return Err(e);
            },
        }
        match checked_graph_limit(self.limit) {
            Ok(_) => {},
            Err(e) => {
                return Err(e);
            },
        }
        Ok(())
    }
}

/// Options of `serve`: where the project and its database are, the
/// address to bind, and the file watch. `bind_is_loopback` tells whether
/// `bind_host` is a loopback address.
#[derive(Debug, Clone, PartialEq, Eq)]
pub struct ServeOptions {
    pub project_path: String,
    pub database_path: String,
    pub bind_host: String,
    pub bind_port: u16,
    pub bind_is_loopback: bool,
    pub allow_non_local_bind: bool,
    pub watch: bool,
    pub debounce_ms: u64,
}

/// The refusal of a non-local bind without the opt-in.
pub open spec fn non_local_bind_text() -> Seq<char> {
    "non-local bind addresses require --allow-non-local-bind"@
}

impl ServeOptions {
    /// The server binds to loopback only, unless a non-local bind is
    /// allowed explicitly.
    pub fn validate(&self) -> (r: Result<(), ControlError>)
        ensures
            r is Ok <==> (self.allow_non_local_bind || self.bind_is_loopback),
            r is Err ==> refused(r, non_local_bind_text()),
    {
        if !self.allow_non_local_bind && !self.bind_is_loopback {
            return Err(bad("non-local bind addresses require --allow-non-local-bind"));
        }
        Ok(())
    }
}

impl Default for ServeOptions {
    fn default() -> (r: ServeOptions)
        ensures
            r.project_path@ == "."@,
            r.database_path@ == ".b3/b3.db"@,
            r.bind_host@ == "127.0.0.1"@,
            r.bind_port == 7777,
            r.bind_is_loopback,
            !r.allow_non_local_bind,
            !r.watch,
            r.debounce_ms == 500,
    {
        ServeOptions {
            project_path: ".".to_owned(),
            database_path: ".b3/b3.db".to_owned(),
            bind_host: "127.0.0.1".to_owned(),
            bind_port: 7777,
            bind_is_loopback: true,
            allow_non_local_bind: false,
            watch: false,
            debounce_ms: 500,
        }
    }
}

/// Options of the local `init`, `index` and `reindex` commands.
#[derive(Debug, Clone, PartialEq, Eq)]
pub struct ProjectCommandOptions {
    pub project_path: String,
    pub database_path: String,
    pub scope: Option<String>,
    pub dry_run: bool,
    pub force: bool,
}

impl Default for ProjectCommandOptions {
    fn default() -> (r: ProjectCommandOptions)
        ensures
            r.project_path@ == "."@,
            r.database_path@ == ".b3/b3.db"@,
            r.scope is None,
            !r.dry_run,
            !r.force,
    {
        ProjectCommandOptions {
            project_path: ".".to_owned(),
            database_path: ".b3/b3.db".to_owned(),
            scope: None,
            dry_run: false,
            force: false,
        }
    }
}

/// What an indexing run requests.
#[derive(Debug, Clone, PartialEq, Eq, Default)]
pub struct IndexRunRequest {
    pub scope: Option<String>,
    pub dry_run: Option<bool>,
    pub force: Option<bool>,
}

/// The state of the last indexing run.
#[derive(Debug, Clone, PartialEq, Eq)]
pub struct IndexStatusResponse {
    pub status: String,
    pub started_at: Option<u64>,
    pub completed_at: Option<u64>,
    pub duration_ms: Option<u128>,
    pub files_discovered: usize,
    pub files_indexed: usize,
    pub files_skipped: usize,
    pub symbols_indexed: usize,
    pub edges_indexed: usize,
    pub parse_failures: usize,
    pub last_error: Option<String>,
}

impl Default for IndexStatusResponse {
    fn default() -> (r: IndexStatusResponse)
        ensures
            r.status@ == "idle"@,
            r.started_at is None,
            r.completed_at is None,
            r.duration_ms is None,
            r.files_discovered == 0,
            r.files_indexed == 0,
            r.files_skipped == 0,
            r.symbols_indexed == 0,
            r.edges_indexed == 0,
            r.parse_failures == 0,
            r.last_error is None,
    {
        IndexStatusResponse {
            status: "idle".to_owned(),
            started_at: None,
            completed_at: None,
            duration_ms: None,
            files_discovered: 0,
            files_indexed: 0,
            files_skipped: 0,
            symbols_indexed: 0,
            edges_indexed: 0,
            parse_failures: 0,
            last_error: None,
        }
    }
}

/// Whether a browser origin is this machine: `http://127.0.0.1:`,
/// `http://localhost:` or `http://[::1]:` followed by a port. An origin
/// header that is not text (`None`) is not.
pub fn is_localhost_origin(origin: Option<&str>) -> (r: bool)
    ensures
        r == match origin {
            Some(o) => starts_with(o@, "http://127.0.0.1:"@) || starts_with(o@, "http://localhost:"@)
                || starts_with(o@, "http://[::1]:"@),
            None => false,
        },
{
    match origin {
        Some(o) => {
            let v = chars_of(o);
            starts_with_str(&v, "http://127.0.0.1:") || starts_with_str(&v, "http://localhost:")
                || starts_with_str(&v, "http://[::1]:")
        },
        None => false,
    }
}

} // verus!
