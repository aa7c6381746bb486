//! Codex's TOML config: the `[mcp_servers.<name>]` section B3 writes, and
//! the rules for replacing or removing it without touching the rest.
use vstd::prelude::*;

use crate::setup::{profile_text, InstallOptions, McpConfigOptions};
use crate::text::{
    chars_of, ends_with, ends_with_str, has_non_ws, has_non_ws_vec, is_alnum, is_alnum_exec,
    joined_with, lines, push_chars, push_joined, push_str, split_lines, starts_with,
    starts_with_str, string_from_chars, strings_view, trim, trim_end, trim_end_vec, trim_vec,
    vv, Lines,
};

verus! {

broadcast use vstd::string::group_string_axioms;

/// The TOML escape of one character.
pub open spec fn escape_char(c: char) -> Seq<char> {
    if c == '\\' {
        seq!['\\', '\\']
    } else if c == '"' {
        seq!['\\', '"']
    } else {
        seq![c]
    }
}

/// Text with each backslash and double quote escaped by a backslash.
pub open spec fn escape(s: Seq<char>) -> Seq<char>
    decreases s.len(),
{
    if s.len() == 0 {
        Seq::empty()
    } else {
        escape(s.drop_last()) + escape_char(s.last())
    }
}

/// Escapes `value` for a TOML basic string.
pub fn escape_toml(value: &str) -> (r: String)
    ensures
        r@ == escape(value@),
{
    let s = chars_of(value);
    let mut out: Vec<char> = Vec::new();
    let mut i: usize = 0;
    while i < s.len()
        invariant
            i <= s.len(),
            s@ == value@,
            out@ == escape(s@.take(i as int)),
        decreases s.len() - i,
    {
        assert(s@.take(i + 1).drop_last() =~= s@.take(i as int));
        let c = s[i];
        if c == '\\' {
            out.push('\\');
            out.push('\\');
        } else if c == '"' {
            out.push('\\');
            out.push('"');
        } else {
            out.push(c);
        }
        i += 1;
        assert(out@ =~= escape(s@.take(i as int)));
    }
    assert(s@.take(i as int) =~= s@);
    string_from_chars(&out)
}

/// A character allowed in a server name.
pub open spec fn server_name_char(c: char) -> bool {
    is_alnum(c) || c == '_' || c == '-'
}

/// Why a server name is refused, if it is.
pub open spec fn server_name_error(name: Seq<char>) -> Option<Seq<char>> {
    if !has_non_ws(name) {
        Some("server name must not be empty"@)
    } else if exists|i: int| 0 <= i < name.len() && !server_name_char(#[trigger] name[i]) {
        Some("server name must contain only ASCII letters, numbers, '_' or '-'"@)
    } else {
        None
    }
}

/// Accepts a server name of ASCII letters, digits, `_` and `-`.
pub fn validate_server_name(value: &str) -> (r: Result<(), String>)
    ensures
        match server_name_error(value@) {
            Some(e) => r is Err && r->Err_0@ == e,
            None => r is Ok,
        },
{
    let s = chars_of(value);
    if !has_non_ws_vec(&s) {
        return Err("server name must not be empty".to_owned());
    }
    let mut i: usize = 0;
    while i < s.len()
        invariant
            i <= s.len(),
            s@ == value@,
            has_non_ws(value@),
            forall|j: int| 0 <= j < i ==> server_name_char(#[trigger] s@[j]),
        decreases s.len() - i,
    {
        let c = s[i];
        if !(is_alnum_exec(c) || c == '_' || c == '-') {
            assert(!server_name_char(value@[i as int]));
            return Err("server name must contain only ASCII letters, numbers, '_' or '-'".to_owned());
        }
        i += 1;
    }
    Ok(())
}

/// A trimmed line that opens a section but does not close it.
pub open spec fn is_broken_header(t: Seq<char>) -> bool {
    starts_with(t, "["@) && !ends_with(t, "]"@)
}

/// The first broken section header among the lines, trimmed.
pub open spec fn broken_header(ls: Lines) -> Option<Seq<char>>
    decreases ls.len(),
{
    if ls.len() == 0 {
        None
    } else if is_broken_header(trim(ls[0])) {
        Some(trim(ls[0]))
    } else {
        broken_header(ls.drop_first())
    }
}

/// Why a TOML-like text is not edited, if it is not.
pub open spec fn toml_error(existing: Seq<char>) -> Option<Seq<char>> {
    match broken_header(lines(existing)) {
        Some(t) => Some(
            "invalid TOML-like header; not overwriting without a clear section boundary: "@ + t,
        ),
        None => None,
    }
}

/// Refuses text with a section header that does not close, since the
/// section boundaries would be unclear.
pub fn validate_toml_like(existing: &str) -> (r: Result<(), String>)
    ensures
        match toml_error(existing@) {
            Some(e) => r is Err && r->Err_0@ == e,
            None => r is Ok,
        },
{
    let ls = split_lines(&chars_of(existing));
    let ghost lv = vv(ls@);
    let mut i: usize = 0;
    assert(lv.skip(0) =~= lv);
    while i < ls.len()
        invariant
            lv == vv(ls@),
            lv == lines(existing@),
            i <= ls.len(),
            broken_header(lv) == broken_header(lv.skip(i as int)),
        decreases ls.len() - i,
    {
        assert(lv.skip(i as int)[0] == ls@[i as int]@);
        let t = trim_vec(&ls[i]);
        if starts_with_str(&t, "[") && !ends_with_str(&t, "]") {
            let mut out: Vec<char> = Vec::new();
            push_str(
                &mut out,
                "invalid TOML-like header; not overwriting without a clear section boundary: ",
            );
            push_chars(&mut out, &t);
            return Err(string_from_chars(&out));
        }
        assert(lv.skip(i as int).drop_first() =~= lv.skip(i + 1));
        i += 1;
    }
    Ok(())
}

/// The header line of a server's section.
pub open spec fn server_header(name: Seq<char>) -> Seq<char> {
    "[mcp_servers."@ + name + "]"@
}

/// Scans the lines for the section headed `header`: the lines kept so far,
/// and whether the scan is inside that section. The section runs from its
/// header to the next line that is a whole `[...]` header.
pub open spec fn section_scan(ls: Lines, header: Seq<char>) -> (Lines, bool)
    decreases ls.len(),
{
    if ls.len() == 0 {
        (Seq::empty(), false)
    } else {
        let (kept, skipping) = section_scan(ls.drop_last(), header);
        let l = ls.last();
        let t = trim(l);
        if t == header {
            (kept, true)
        } else {
            let still = skipping && !(starts_with(t, "["@) && ends_with(t, "]"@));
            if still {
                (kept, true)
            } else {
                (kept.push(l), false)
            }
        }
    }
}

/// The text without the server's section, trailing whitespace trimmed.
pub open spec fn without_server(existing: Seq<char>, name: Seq<char>) -> Seq<char> {
    trim_end(joined_with(section_scan(lines(existing), server_header(name)).0, "\n"@))
}

/// Removes the `[mcp_servers.<name>]` section, keeping every other line.
pub fn remove_codex_server(existing: &str, server_name: &str) -> (r: Result<String, String>)
    ensures
        match toml_error(existing@) {
            Some(e) => r is Err && r->Err_0@ == e,
            None => r is Ok && r->Ok_0@ == without_server(existing@, server_name@),
        },
{
    match validate_toml_like(existing) {
        Ok(()) => {},
        Err(e) => {
            return Err(e);
        },
    }
    let mut header: Vec<char> = Vec::new();
    push_str(&mut header, "[mcp_servers.");
    push_str(&mut header, server_name);
    push_str(&mut header, "]");
    assert(header@ =~= server_header(server_name@));
    let ls = split_lines(&chars_of(existing));
    let ghost lv = vv(ls@);
    let mut kept: Vec<String> = Vec::new();
    let mut skipping = false;
    let mut i: usize = 0;
    assert(strings_view(kept@) =~= Seq::<Seq<char>>::empty());
    assert(lv.take(0) =~= Seq::<Seq<char>>::empty());
    while i < ls.len()
        invariant
            lv == vv(ls@),
            i <= ls.len(),
            header@ == server_header(server_name@),
            section_scan(lv.take(i as int), header@) == (strings_view(kept@), skipping),
        decreases ls.len() - i,
    {
        assert(lv.take(i + 1).drop_last() =~= lv.take(i as int));
        assert(lv[i as int] == ls@[i as int]@);
        let t = trim_vec(&ls[i]);
        if crate::text::eq_vec(&t, &header) {
            skipping = true;
        } else {
            if skipping && starts_with_str(&t, "[") && ends_with_str(&t, "]") {
                skipping = false;
            }
            if !skipping {
                let ghost before = strings_view(kept@);
                kept.push(string_from_chars(&ls[i]));
                assert(strings_view(kept@) =~= before.push(lv[i as int]));
            }
        }
        i += 1;
    }
    assert(lv.take(i as int) =~= lv);
    let mut joined: Vec<char> = Vec::new();
    push_joined(&mut joined, &kept, "\n");
    assert(joined@ =~= joined_with(strings_view(kept@), "\n"@));
    let trimmed = trim_end_vec(&joined);
    Ok(string_from_chars(&trimmed))
}

/// The Codex section for an install.
pub open spec fn snippet_text(o: InstallOptions) -> Seq<char> {
    "[mcp_servers."@ + o.server_name@ + "]\ncommand = \""@ + escape(o.command_path@)
        + "\"\nargs = [\n  \"serve\",\n  \"--project\",\n  \""@ + escape(o.project_path@)
        + "\",\n  \"--database\",\n  \""@ + escape(o.database_path@)
        + "\",\n  \"--profile\",\n  \""@ + profile_text(o.profile)
        + "\"\n]\nenabled = true\n"@
}

/// The Codex section that runs the MCP runtime for a project.
pub fn codex_snippet(options: &InstallOptions) -> (r: String)
    ensures
        r@ == snippet_text(*options),
{
    let mut out: Vec<char> = Vec::new();
    push_str(&mut out, "[mcp_servers.");
    push_str(&mut out, options.server_name.as_str());
    push_str(&mut out, "]\ncommand = \"");
    let command = escape_toml(options.command_path.as_str());
    push_str(&mut out, command.as_str());
    push_str(&mut out, "\"\nargs = [\n  \"serve\",\n  \"--project\",\n  \"");
    let project = escape_toml(options.project_path.as_str());
    push_str(&mut out, project.as_str());
    push_str(&mut out, "\",\n  \"--database\",\n  \"");
    let database = escape_toml(options.database_path.as_str());
    push_str(&mut out, database.as_str());
    push_str(&mut out, "\",\n  \"--profile\",\n  \"");
    push_str(&mut out, options.profile.as_str());
    push_str(&mut out, "\"\n]\nenabled = true\n");
    assert(out@ =~= snippet_text(*options));
    string_from_chars(&out)
}

/// The config after installing: the old text without the server's
/// section, then (after a blank line, unless nothing is left) the new
/// section.
pub open spec fn updated_codex(existing: Seq<char>, o: InstallOptions) -> Seq<char> {
    let rest = trim_end(without_server(existing, o.server_name@));
    rest + (if rest.len() > 0 {
        "\n\n"@
    } else {
        Seq::empty()
    }) + snippet_text(o)
}

/// Writes the server's section into a Codex config, replacing any earlier
/// section of that name.
pub fn update_codex_config(existing: &str, options: &InstallOptions) -> (r: Result<String, String>)
    ensures
        match toml_error(existing@) {
            Some(e) => r is Err && r->Err_0@ == e,
            None => r is Ok && r->Ok_0@ == updated_codex(existing@, *options),
        },
{
    match validate_toml_like(existing) {
        Ok(()) => {},
        Err(e) => {
            return Err(e);
        },
    }
    let removed = match remove_codex_server(existing, options.server_name.as_str()) {
        Ok(text) => text,
        Err(e) => {
            return Err(e);
        },
    };
    let rest = trim_end_vec(&chars_of(removed.as_str()));
    let mut out: Vec<char> = Vec::new();
    push_chars(&mut out, &rest);
    if rest.len() > 0 {
        push_str(&mut out, "\n\n");
    }
    let snippet = codex_snippet(options);
    push_str(&mut out, snippet.as_str());
    assert(out@ =~= updated_codex(existing@, *options));
    Ok(string_from_chars(&out))
}

/// The command a template runs: `cargo` for a source checkout, else the
/// runtime command.
pub open spec fn template_command(o: McpConfigOptions) -> Seq<char> {
    if o.cargo_run {
        "cargo"@
    } else {
        o.command_path@
    }
}

/// The arguments a template passes.
pub open spec fn template_args(o: McpConfigOptions) -> Lines {
    (if o.cargo_run {
        seq!["run"@, "-p"@, "b3-mcp-runtime"@, "--"@]
    } else {
        Seq::empty()
    }) + seq![
        "serve"@,
        "--project"@,
        o.project_path@,
        "--database"@,
        o.database_path@,
        "--profile"@,
        profile_text(o.profile),
    ]
}

/// The command a template runs.
pub fn mcp_command(options: &McpConfigOptions) -> (r: String)
    ensures
        r@ == template_command(*options),
{
    if options.cargo_run {
        "cargo".to_owned()
    } else {
        options.command_path.clone()
    }
}

/// The arguments a template passes.
pub fn mcp_args(options: &McpConfigOptions) -> (r: Vec<String>)
    ensures
        strings_view(r@) == template_args(*options),
{
    let mut args: Vec<String> = Vec::new();
    if options.cargo_run {
        args.push("run".to_owned());
        args.push("-p".to_owned());
        args.push("b3-mcp-runtime".to_owned());
        args.push("--".to_owned());
    }
    args.push("serve".to_owned());
    args.push("--project".to_owned());
    args.push(options.project_path.clone());
    args.push("--database".to_owned());
    args.push(options.database_path.clone());
    args.push("--profile".to_owned());
    args.push(options.profile.to_string());
    assert(strings_view(args@) =~= template_args(*options));
    args
}

/// The line of a template that lists one argument.
pub open spec fn arg_line(a: Seq<char>) -> Seq<char> {
    "  \""@ + escape(a) + "\","@
}

pub open spec fn arg_lines(args: Lines) -> Lines {
    args.map_values(|a: Seq<char>| arg_line(a))
}

/// The lines of a Codex template.
pub open spec fn template_lines(o: McpConfigOptions) -> Lines {
    seq![
        "[mcp_servers."@ + o.server_name@ + "]"@,
        "enabled = true"@,
        "command = \""@ + escape(template_command(o)) + "\""@,
        "args = ["@,
    ] + arg_lines(template_args(o)) + seq!["]"@] + (if o.cargo_run {
        seq!["cwd = \""@ + escape(o.repo_path@) + "\""@, "startup_timeout_sec = 30"@]
    } else {
        seq!["startup_timeout_sec = 20"@]
    }) + seq!["tool_timeout_sec = 60"@, Seq::empty()]
}

fn line_of(parts: &Vec<char>) -> (r: String)
    ensures
        r@ == parts@,
{
    string_from_chars(parts)
}

fn push_line(lines_out: &mut Vec<String>, line: String)
    ensures
        strings_view(final(lines_out)@) == strings_view(old(lines_out)@).push(line@),
{
    let ghost before = strings_view(lines_out@);
    let ghost lv = line@;
    lines_out.push(line);
    assert(strings_view(lines_out@) =~= before.push(lv));
}

/// A Codex config template for the MCP runtime, printed and not written.
pub fn codex_mcp_template(options: &McpConfigOptions) -> (r: String)
    ensures
        r@ == joined_with(template_lines(*options), "\n"@),
{
    let mut out_lines: Vec<String> = Vec::new();
    let mut header: Vec<char> = Vec::new();
    push_str(&mut header, "[mcp_servers.");
    push_str(&mut header, options.server_name.as_str());
    push_str(&mut header, "]");
    push_line(&mut out_lines, line_of(&header));
    push_line(&mut out_lines, "enabled = true".to_owned());
    let mut command: Vec<char> = Vec::new();
    push_str(&mut command, "command = \"");
    let cmd = mcp_command(options);
    let escaped = escape_toml(cmd.as_str());
    push_str(&mut command, escaped.as_str());
    push_str(&mut command, "\"");
    push_line(&mut out_lines, line_of(&command));
    push_line(&mut out_lines, "args = [".to_owned());
    let ghost head = strings_view(out_lines@);
    let args = mcp_args(options);
    let ghost av = strings_view(args@);
    let mut i: usize = 0;
    while i < args.len()
        invariant
            av == strings_view(args@),
            i <= args.len(),
            strings_view(out_lines@) == head + arg_lines(av.take(i as int)),
        decreases args.len() - i,
    {
        let mut line: Vec<char> = Vec::new();
        push_str(&mut line, "  \"");
        let e = escape_toml(args[i].as_str());
        push_str(&mut line, e.as_str());
        push_str(&mut line, "\",");
        assert(av[i as int] == args@[i as int]@);
        assert(line@ =~= arg_line(av[i as int]));
        push_line(&mut out_lines, line_of(&line));
        i += 1;
        assert(arg_lines(av.take(i as int)) =~= arg_lines(av.take(i - 1)).push(
            arg_line(av[i - 1]),
        ));
    }
    assert(av.take(i as int) =~= av);
    push_line(&mut out_lines, "]".to_owned());
    if options.cargo_run {
        let mut cwd: Vec<char> = Vec::new();
        push_str(&mut cwd, "cwd = \"");
        let repo = escape_toml(options.repo_path.as_str());
        push_str(&mut cwd, repo.as_str());
        push_str(&mut cwd, "\"");
        push_line(&mut out_lines, line_of(&cwd));
        push_line(&mut out_lines, "startup_timeout_sec = 30".to_owned());
    } else {
        push_line(&mut out_lines, "startup_timeout_sec = 20".to_owned());
    }
    push_line(&mut out_lines, "tool_timeout_sec = 60".to_owned());
    push_line(&mut out_lines, String::new());
    assert(strings_view(out_lines@) =~= template_lines(*options));
    let mut out: Vec<char> = Vec::new();
    push_joined(&mut out, &out_lines, "\n");
    assert(out@ =~= joined_with(template_lines(*options), "\n"@));
    string_from_chars(&out)
}

} // verus!
