//! The control server's command line: which command it runs, and the
//! options of the project commands.
use vstd::prelude::*;

use crate::control::{non_local_bind_text, refused, ControlError, ProjectCommandOptions, ServeOptions};
use crate::paths::opt_view;
use crate::setup::cli::arg_texts;
use crate::text::{is_digit, push_str, str_eq, string_from_chars, chars_of, Lines};

verus! {

broadcast use vstd::string::group_string_axioms;

/// The options of a project command as plain values.
pub struct ProjectView {
    pub project_path: Seq<char>,
    pub database_path: Seq<char>,
    pub scope: Option<Seq<char>>,
    pub dry_run: bool,
    pub force: bool,
}

impl View for ProjectCommandOptions {
    type V = ProjectView;

    open spec fn view(&self) -> ProjectView {
        ProjectView {
            project_path: self.project_path@,
            database_path: self.database_path@,
            scope: opt_view(self.scope),
            dry_run: self.dry_run,
            force: self.force,
        }
    }
}

/// What the arguments of a project command ask for: options, help (which
/// the server prints before it exits), or a refusal.
#[derive(Debug)]
pub enum ProjectArgs<T> {
    Options(T),
    Help,
}

/// The project options after reading the arguments from `i` on.
pub open spec fn project_flags(args: Lines, i: int, o: ProjectView) -> Result<ProjectArgs<ProjectView>, Seq<char>>
    decreases args.len() - i,
{
    if i < 0 || i >= args.len() {
        Ok(ProjectArgs::Options(o))
    } else {
        let a = args[i];
        if a == "--project"@ || a == "--database"@ || a == "--scope"@ {
            if i + 1 >= args.len() {
                Err(a + " requires a value"@)
            } else {
                let v = args[i + 1];
                let o2 = if a == "--project"@ {
                    ProjectView { project_path: v, ..o }
                } else if a == "--database"@ {
                    ProjectView { database_path: v, ..o }
                } else {
                    ProjectView { scope: Some(v), ..o }
                };
                project_flags(args, i + 2, o2)
            }
        } else if a == "--dry-run"@ {
            project_flags(args, i + 1, ProjectView { dry_run: true, ..o })
        } else if a == "--force"@ {
            project_flags(args, i + 1, ProjectView { force: true, ..o })
        } else if a == "--help"@ || a == "-h"@ {
            Ok(ProjectArgs::Help)
        } else {
            Err("unknown argument: "@ + a)
        }
    }
}

pub open spec fn project_defaults() -> ProjectView {
    ProjectView { project_path: "."@, database_path: ".b3/b3.db"@, scope: None, dry_run: false, force: false }
}

fn refusal(a: &str, b: &str) -> (r: ControlError)
    ensures
        r.status == 400,
        r.message@ == a@ + b@,
{
    let mut out: Vec<char> = Vec::new();
    push_str(&mut out, a);
    push_str(&mut out, b);
    ControlError::bad_request(string_from_chars(&out))
}

/// Reads the options of `init`, `index` and `reindex` from `args[start..]`.
pub fn parse_project_options(args: &Vec<String>, start: usize) -> (r: Result<ProjectArgs<ProjectCommandOptions>, ControlError>)
    ensures
        match project_flags(arg_texts(args@), start as int, project_defaults()) {
            Ok(ProjectArgs::Options(o)) => r is Ok && r->Ok_0 is Options && r->Ok_0->Options_0@ == o,
            Ok(ProjectArgs::Help) => r is Ok && r->Ok_0 is Help,
            Err(e) => refused(r, e),
        },
{
    let ghost texts = arg_texts(args@);
    let mut options = ProjectCommandOptions::default();
    assert(options@ == project_defaults());
    let ghost target = project_flags(texts, start as int, options@);
    let mut i = start;
    while i < args.len()
        invariant
            texts == arg_texts(args@),
            target == project_flags(texts, start as int, project_defaults()),
            target == project_flags(texts, i as int, options@),
        decreases args.len() - i,
    {
        let a = args[i].as_str();
        assert(texts[i as int] == a@);
        if str_eq(a, "--project") || str_eq(a, "--database") || str_eq(a, "--scope") {
            if i + 1 >= args.len() {
                return Err(refusal(a, " requires a value"));
            }
            let v = args[i + 1].as_str();
            assert(texts[i + 1] == v@);
            if str_eq(a, "--project") {
                options.project_path = v.to_owned();
            } else if str_eq(a, "--database") {
                options.database_path = v.to_owned();
            } else {
                options.scope = Some(v.to_owned());
            }
            i = i + 2;
        } else if str_eq(a, "--dry-run") {
            options.dry_run = true;
            i = i + 1;
        } else if str_eq(a, "--force") {
            options.force = true;
            i = i + 1;
        } else if str_eq(a, "--help") || str_eq(a, "-h") {
            return Ok(ProjectArgs::Help);
        } else {
            return Err(refusal("unknown argument: ", a));
        }
    }
    Ok(ProjectArgs::Options(options))
}

/// What the caller knows of one argument as a host: whether it reads as
/// an IP address (`str::parse::<IpAddr>`), and whether that address is a
/// loopback address.
#[derive(Debug, Clone, Copy, PartialEq, Eq, Structural)]
pub struct HostFact {
    pub is_ip: bool,
    pub is_loopback: bool,
}

/// The options of `serve` as plain values.
pub struct ServeView {
    pub project_path: Seq<char>,
    pub database_path: Seq<char>,
    pub bind_host: Seq<char>,
    pub bind_port: u16,
    pub bind_is_loopback: bool,
    pub allow_non_local_bind: bool,
    pub watch: bool,
    pub debounce_ms: u64,
}

impl View for ServeOptions {
    type V = ServeView;

    open spec fn view(&self) -> ServeView {
        ServeView {
            project_path: self.project_path@,
            database_path: self.database_path@,
            bind_host: self.bind_host@,
            bind_port: self.bind_port,
            bind_is_loopback: self.bind_is_loopback,
            allow_non_local_bind: self.allow_non_local_bind,
            watch: self.watch,
            debounce_ms: self.debounce_ms,
        }
    }
}

/// The default `serve` options: the current directory, `.b3/b3.db`, the
/// loopback address 127.0.0.1 on port 7777, no watch, 500 ms debounce.
pub open spec fn serve_defaults() -> ServeView {
    ServeView {
        project_path: "."@,
        database_path: ".b3/b3.db"@,
        bind_host: "127.0.0.1"@,
        bind_port: 7777,
        bind_is_loopback: true,
        allow_non_local_bind: false,
        watch: false,
        debounce_ms: 500,
    }
}

/// The value of a string of decimal digits.
pub open spec fn digits_value(s: Seq<char>) -> nat
    decreases s.len(),
{
    if s.len() == 0 {
        0
    } else {
        digits_value(s.drop_last()) * 10 + ((s.last() as u32) - ('0' as u32)) as nat
    }
}

/// The digits of an unsigned integer's text: all of it after an optional
/// leading `+`.
pub open spec fn unsigned_digits(s: Seq<char>) -> Seq<char> {
    if s.len() > 0 && s[0] == '+' {
        s.drop_first()
    } else {
        s
    }
}

/// Every character is a decimal digit.
pub open spec fn all_digits(d: Seq<char>) -> bool {
    forall|i: int| 0 <= i < d.len() ==> is_digit(#[trigger] d[i])
}

/// An unsigned integer as `str::parse` reads it: an optional `+`, then one
/// or more decimal digits and nothing else, of a value at most `max`.
pub open spec fn unsigned_value(s: Seq<char>, max: nat) -> Option<nat> {
    let d = unsigned_digits(s);
    if d.len() > 0 && all_digits(d) && digits_value(d) <= max {
        Some(digits_value(d))
    } else {
        None
    }
}

/// The `serve` options after reading the arguments from `i` on; `facts[k]`
/// tells how argument `k` reads as a host.
pub open spec fn serve_flags(args: Lines, facts: Seq<HostFact>, i: int, o: ServeView) -> Result<
    ProjectArgs<ServeView>,
    Seq<char>,
>
    decreases args.len() - i,
{
    if i < 0 || i >= args.len() {
        Ok(ProjectArgs::Options(o))
    } else {
        let a = args[i];
        if a == "--project"@ || a == "--database"@ || a == "--port"@ || a == "--host"@ || a
            == "--debounce-ms"@ {
            if i + 1 >= args.len() {
                Err(a + " requires a value"@)
            } else {
                let v = args[i + 1];
                if a == "--project"@ {
                    serve_flags(args, facts, i + 2, ServeView { project_path: v, ..o })
                } else if a == "--database"@ {
                    serve_flags(args, facts, i + 2, ServeView { database_path: v, ..o })
                } else if a == "--port"@ {
                    match unsigned_value(v, 0xffff) {
                        Some(p) => serve_flags(args, facts, i + 2, ServeView { bind_port: p as u16, ..o }),
                        None => Err("--port must be a valid u16"@),
                    }
                } else if a == "--host"@ {
                    if facts[i + 1].is_ip {
                        serve_flags(
                            args,
                            facts,
                            i + 2,
                            ServeView { bind_host: v, bind_is_loopback: facts[i + 1].is_loopback, ..o },
                        )
                    } else {
                        Err("--host must be an IP address"@)
                    }
                } else {
                    match unsigned_value(v, 0xffff_ffff_ffff_ffff) {
                        Some(d) => serve_flags(args, facts, i + 2, ServeView { debounce_ms: d as u64, ..o }),
                        None => Err("--debounce-ms must be a valid u64"@),
                    }
                }
            }
        } else if a == "--allow-non-local-bind"@ {
            serve_flags(args, facts, i + 1, ServeView { allow_non_local_bind: true, ..o })
        } else if a == "--watch"@ {
            serve_flags(args, facts, i + 1, ServeView { watch: true, ..o })
        } else if a == "--help"@ || a == "-h"@ {
            Ok(ProjectArgs::Help)
        } else {
            Err("unknown argument: "@ + a)
        }
    }
}

/// What `serve` with the arguments from `i` on asks for: help, or options
/// that bind to loopback unless a non-local bind is allowed.
pub open spec fn serve_result(args: Lines, facts: Seq<HostFact>, i: int) -> Result<
    ServerCommandView,
    Seq<char>,
> {
    match serve_flags(args, facts, i, serve_defaults()) {
        Ok(ProjectArgs::Help) => Ok(ServerCommandView::Help),
        Ok(ProjectArgs::Options(o)) => if !o.allow_non_local_bind && !o.bind_is_loopback {
            Err(non_local_bind_text())
        } else {
            Ok(ServerCommandView::Serve(o))
        },
        Err(e) => Err(e),
    }
}

proof fn lemma_digits_prefix(d: Seq<char>, j: int)
    requires
        0 <= j <= d.len(),
        forall|i: int| 0 <= i < d.len() ==> is_digit(#[trigger] d[i]),
    ensures
        digits_value(d.take(j)) <= digits_value(d),
    decreases d.len(),
{
    if j < d.len() {
        assert(d.drop_last().take(j) =~= d.take(j));
        assert forall|i: int| 0 <= i < d.drop_last().len() implies is_digit(#[trigger] d.drop_last()[i]) by {
            assert(d.drop_last()[i] == d[i]);
        }
        lemma_digits_prefix(d.drop_last(), j);
    } else {
        assert(d.take(j) =~= d);
    }
}

/// Reads an unsigned integer as `str::parse` does, up to `max`.
pub fn parse_unsigned(s: &str, max: u64) -> (r: Option<u64>)
    ensures
        match unsigned_value(s@, max as nat) {
            Some(v) => r == Some(v as u64),
            None => r is None,
        },
{
    let all = chars_of(s);
    let start: usize = if all.len() > 0 && all[0] == '+' {
        1
    } else {
        0
    };
    let ghost d = unsigned_digits(s@);
    assert(d =~= all@.skip(start as int));
    if start >= all.len() {
        return None;
    }
    let mut k: usize = start;
    while k < all.len()
        invariant
            start <= k <= all.len(),
            d =~= all@.skip(start as int),
            forall|i: int| 0 <= i < k - start ==> is_digit(#[trigger] d[i]),
            d == unsigned_digits(s@),
        decreases all.len() - k,
    {
        if !('0' <= all[k] && all[k] <= '9') {
            assert(!is_digit(d[k - start]));
            assert(!all_digits(d));
            return None;
        }
        k += 1;
    }
    let mut acc: u128 = 0;
    let mut i: usize = start;
    assert(d.take(0) =~= Seq::<char>::empty());
    assert(all_digits(d));
    while i < all.len()
        invariant
            start <= i <= all.len(),
            d =~= all@.skip(start as int),
            all_digits(d),
            acc == digits_value(d.take(i - start)),
            acc <= max,
            d == unsigned_digits(s@),
        decreases all.len() - i,
    {
        assert(d.take(i - start + 1).drop_last() =~= d.take(i - start));
        assert(d.take(i - start + 1).last() == all@[i as int]);
        let digit = (all[i] as u32 - '0' as u32) as u128;
        acc = acc * 10 + digit;
        i += 1;
        if acc > max as u128 {
            proof {
                lemma_digits_prefix(d, (i - start) as int);
            }
            return None;
        }
    }
    assert(d.take(i - start) =~= d);
    Some(acc as u64)
}

/// Reads the options of `serve` from `args[start..]`; `facts[k]` tells
/// how argument `k` reads as a host.
pub fn parse_serve_options(args: &Vec<String>, facts: &Vec<HostFact>, start: usize) -> (r: Result<
    ProjectArgs<ServeOptions>,
    ControlError,
>)
    requires
        facts.len() == args.len(),
    ensures
        match serve_flags(arg_texts(args@), facts@, start as int, serve_defaults()) {
            Ok(ProjectArgs::Options(o)) => r is Ok && r->Ok_0 is Options && r->Ok_0->Options_0@ == o,
            Ok(ProjectArgs::Help) => r is Ok && r->Ok_0 is Help,
            Err(e) => refused(r, e),
        },
{
    let ghost texts = arg_texts(args@);
    let mut options = ServeOptions::default();
    assert(options@ == serve_defaults());
    let ghost target = serve_flags(texts, facts@, start as int, options@);
    let mut i = start;
    while i < args.len()
        invariant
            texts == arg_texts(args@),
            facts.len() == args.len(),
            target == serve_flags(texts, facts@, start as int, serve_defaults()),
            target == serve_flags(texts, facts@, i as int, options@),
        decreases args.len() - i,
    {
        let a = args[i].as_str();
        assert(texts[i as int] == a@);
        if str_eq(a, "--project") || str_eq(a, "--database") || str_eq(a, "--port") || str_eq(a, "--host")
            || str_eq(a, "--debounce-ms") {
            if i + 1 >= args.len() {
                return Err(refusal(a, " requires a value"));
            }
            let v = args[i + 1].as_str();
            assert(texts[i + 1] == v@);
            if str_eq(a, "--project") {
                options.project_path = v.to_owned();
            } else if str_eq(a, "--database") {
                options.database_path = v.to_owned();
            } else if str_eq(a, "--port") {
                match parse_unsigned(v, 0xffff) {
                    Some(p) => {
                        options.bind_port = p as u16;
                    },
                    None => {
                        return Err(ControlError::bad_request("--port must be a valid u16".to_owned()));
                    },
                }
            } else if str_eq(a, "--host") {
                if !facts[i + 1].is_ip {
                    return Err(ControlError::bad_request("--host must be an IP address".to_owned()));
                }
                options.bind_host = v.to_owned();
                options.bind_is_loopback = facts[i + 1].is_loopback;
            } else {
                match parse_unsigned(v, 0xffff_ffff_ffff_ffff) {
                    Some(d) => {
                        options.debounce_ms = d;
                    },
                    None => {
                        return Err(ControlError::bad_request("--debounce-ms must be a valid u64".to_owned()));
                    },
                }
            }
            i = i + 2;
        } else if str_eq(a, "--allow-non-local-bind") {
            options.allow_non_local_bind = true;
            i = i + 1;
        } else if str_eq(a, "--watch") {
            options.watch = true;
            i = i + 1;
        } else if str_eq(a, "--help") || str_eq(a, "-h") {
            return Ok(ProjectArgs::Help);
        } else {
            return Err(refusal("unknown argument: ", a));
        }
    }
    Ok(ProjectArgs::Options(options))
}

/// The server's commands.
#[derive(Debug)]
pub enum ServerCommand {
    Help,
    Init(ProjectCommandOptions),
    Index(ProjectCommandOptions, bool),
    Serve(ServeOptions),
}

/// A server command as plain values.
pub enum ServerCommandView {
    Help,
    Init(ProjectView),
    Index(ProjectView, bool),
    Serve(ServeView),
}

impl View for ServerCommand {
    type V = ServerCommandView;

    open spec fn view(&self) -> ServerCommandView {
        match self {
            ServerCommand::Help => ServerCommandView::Help,
            ServerCommand::Init(o) => ServerCommandView::Init(o@),
            ServerCommand::Index(o, reindex) => ServerCommandView::Index(o@, *reindex),
            ServerCommand::Serve(o) => ServerCommandView::Serve(o@),
        }
    }
}

/// The command the server's arguments ask for: `serve` when none is
/// named; `init`, `index` and `reindex` read project options, `serve`
/// reads its own.
pub open spec fn server_command_result(args: Lines, facts: Seq<HostFact>) -> Result<ServerCommandView, Seq<char>> {
    if args.len() == 0 {
        serve_result(args, facts, 0)
    } else {
        let c = args[0];
        if c == "--help"@ || c == "-h"@ {
            Ok(ServerCommandView::Help)
        } else if c == "init"@ || c == "index"@ || c == "reindex"@ {
            match project_flags(args, 1, project_defaults()) {
                Ok(ProjectArgs::Help) => Ok(ServerCommandView::Help),
                Ok(ProjectArgs::Options(o)) => if c == "init"@ {
                    Ok(ServerCommandView::Init(o))
                } else {
                    Ok(ServerCommandView::Index(o, c == "reindex"@))
                },
                Err(e) => Err(e),
            }
        } else if c == "serve"@ {
            serve_result(args, facts, 1)
        } else {
            Err("expected command: init, index, reindex, or serve"@)
        }
    }
}

/// Chooses the server's command from its arguments (after the program
/// name); `host_facts[k]` tells how argument `k` reads as a host.
pub fn parse_server_command(args: &Vec<String>, host_facts: &Vec<HostFact>) -> (r: Result<ServerCommand, ControlError>)
    requires
        host_facts.len() == args.len(),
    ensures
        match server_command_result(arg_texts(args@), host_facts@) {
            Ok(v) => r is Ok && r->Ok_0@ == v,
            Err(e) => refused(r, e),
        },
{
    let start: usize = if args.len() == 0 {
        0
    } else {
        let c = args[0].as_str();
        assert(arg_texts(args@)[0] == c@);
        if str_eq(c, "--help") || str_eq(c, "-h") {
            return Ok(ServerCommand::Help);
        }
        if str_eq(c, "init") || str_eq(c, "index") || str_eq(c, "reindex") {
            let options = match parse_project_options(args, 1)? {
                ProjectArgs::Help => {
                    return Ok(ServerCommand::Help);
                },
                ProjectArgs::Options(o) => o,
            };
            if str_eq(c, "init") {
                return Ok(ServerCommand::Init(options));
            }
            return Ok(ServerCommand::Index(options, str_eq(c, "reindex")));
        }
        if !str_eq(c, "serve") {
            return Err(ControlError::bad_request("expected command: init, index, reindex, or serve".to_owned()));
        }
        1
    };
    let options = match parse_serve_options(args, host_facts, start)? {
        ProjectArgs::Help => {
            return Ok(ServerCommand::Help);
        },
        ProjectArgs::Options(o) => o,
    };
    match options.validate() {
        Ok(()) => Ok(ServerCommand::Serve(options)),
        Err(e) => Err(e),
    }
}

} // verus!
