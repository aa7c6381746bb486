//! Recognising which tool produced a command line.
use vstd::prelude::*;

use crate::text::{
    chars_of, ends_with, ends_with_vec, eq_str, is_ws, is_ws_exec, lower, lower_vec,
    strings_view, trim_char, trim_char_vec, vv, Lines,
};

verus! {

broadcast use vstd::string::group_string_axioms;

/// The tool family a command belongs to.
#[derive(Debug, Clone, Copy, PartialEq, Eq, Structural)]
pub enum CommandFamily {
    Git,
    Cargo,
    Dotnet,
    Npm,
    Pnpm,
    Yarn,
    Ng,
    Tsc,
    Eslint,
    Docker,
    DockerCompose,
    Rg,
    Grep,
    Cat,
    Tree,
    Unknown,
}

/// Scans `s` from the left: the whitespace-separated words finished so far,
/// and the characters of the word still open.
pub open spec fn split_ws(s: Seq<char>) -> (Lines, Seq<char>)
    decreases s.len(),
{
    if s.len() == 0 {
        (Seq::empty(), Seq::empty())
    } else {
        let (done, cur) = split_ws(s.drop_last());
        if is_ws(s.last()) {
            if cur.len() > 0 {
                (done.push(cur), Seq::empty())
            } else {
                (done, cur)
            }
        } else {
            (done, cur.push(s.last()))
        }
    }
}

/// `str::split_whitespace`.
pub open spec fn words(s: Seq<char>) -> Lines {
    let (done, cur) = split_ws(s);
    if cur.len() > 0 {
        done.push(cur)
    } else {
        done
    }
}

/// Removes every trailing occurrence of `p` (`str::trim_end_matches` with a
/// non-empty string pattern).
pub open spec fn trim_suffix_all(s: Seq<char>, p: Seq<char>) -> Seq<char>
    decreases s.len(),
{
    if p.len() > 0 && ends_with(s, p) {
        trim_suffix_all(s.subrange(0, s.len() - p.len()), p)
    } else {
        s
    }
}

/// The program word: the first argument, else the first word of the command.
pub open spec fn first_word(command: Seq<char>, argv: Lines) -> Seq<char> {
    if argv.len() > 0 {
        argv[0]
    } else if words(command).len() > 0 {
        words(command)[0]
    } else {
        Seq::empty()
    }
}

/// The subcommand word: the second argument, else the second word of the command.
pub open spec fn second_word(command: Seq<char>, argv: Lines) -> Seq<char> {
    if argv.len() > 1 {
        argv[1]
    } else if words(command).len() > 1 {
        words(command)[1]
    } else {
        Seq::empty()
    }
}

/// The program word without quotes, without `.exe` suffixes, lowercased.
pub open spec fn program_key(command: Seq<char>, argv: Lines) -> Seq<char> {
    lower(trim_suffix_all(trim_char(first_word(command, argv), '"'), ".exe"@))
}

/// The family a program name (already normalised) and subcommand select.
pub open spec fn family_for(program: Seq<char>, second: Seq<char>) -> CommandFamily {
    if program == "git"@ {
        CommandFamily::Git
    } else if program == "cargo"@ {
        CommandFamily::Cargo
    } else if program == "dotnet"@ {
        CommandFamily::Dotnet
    } else if program == "npm"@ || program == "npx"@ {
        CommandFamily::Npm
    } else if program == "pnpm"@ {
        CommandFamily::Pnpm
    } else if program == "yarn"@ {
        CommandFamily::Yarn
    } else if program == "ng"@ {
        CommandFamily::Ng
    } else if program == "tsc"@ {
        CommandFamily::Tsc
    } else if program == "eslint"@ {
        CommandFamily::Eslint
    } else if program == "docker"@ && second == "compose"@ {
        CommandFamily::DockerCompose
    } else if program == "docker-compose"@ {
        CommandFamily::DockerCompose
    } else if program == "docker"@ {
        CommandFamily::Docker
    } else if program == "rg"@ || program == "ripgrep"@ {
        CommandFamily::Rg
    } else if program == "grep"@ {
        CommandFamily::Grep
    } else if program == "cat"@ || program == "type"@ || program == "get-content"@ {
        CommandFamily::Cat
    } else if program == "tree"@ {
        CommandFamily::Tree
    } else {
        CommandFamily::Unknown
    }
}

/// The family of a command given as a command line and optional argument list.
pub open spec fn family_of(command: Seq<char>, argv: Lines) -> CommandFamily {
    family_for(program_key(command, argv), lower(second_word(command, argv)))
}

/// `str::split_whitespace`, collected.
pub fn split_words(s: &Vec<char>) -> (r: Vec<Vec<char>>)
    ensures
        vv(r@) == words(s@),
{
    let mut done: Vec<Vec<char>> = Vec::new();
    let mut cur: Vec<char> = Vec::new();
    let mut i: usize = 0;
    while i < s.len()
        invariant
            i <= s.len(),
            split_ws(s@.take(i as int)) == (vv(done@), cur@),
        decreases s.len() - i,
    {
        let c = s[i];
        assert(s@.take(i + 1).drop_last() =~= s@.take(i as int));
        if is_ws_exec(c) {
            if cur.len() > 0 {
                let ghost old_dv = vv(done@);
                let ghost fin = cur@;
                done.push(cur);
                assert(vv(done@) =~= old_dv.push(fin));
                cur = Vec::new();
            }
        } else {
            cur.push(c);
        }
        i += 1;
    }
    assert(s@.take(i as int) =~= s@);
    if cur.len() > 0 {
        let ghost old_dv = vv(done@);
        let ghost fin = cur@;
        done.push(cur);
        assert(vv(done@) =~= old_dv.push(fin));
    }
    done
}

pub fn trim_suffix_all_vec(s: &Vec<char>, p: &Vec<char>) -> (r: Vec<char>)
    ensures
        r@ == trim_suffix_all(s@, p@),
{
    let mut cur: Vec<char> = s.clone();
    assert(cur@ == s@);
    if p.len() == 0 {
        return cur;
    }
    while ends_with_vec(&cur, p)
        invariant
            p@.len() > 0,
            trim_suffix_all(s@, p@) == trim_suffix_all(cur@, p@),
        decreases cur@.len(),
    {
        let ghost before = cur@;
        let keep = cur.len() - p.len();
        cur.truncate(keep);
        assert(cur@ =~= before.subrange(0, before.len() - p@.len()));
    }
    cur
}

/// Classifies a command by its program word (and, for docker, its subcommand).
pub fn detect_command_family(command: &str, argv: &[String]) -> (r: CommandFamily)
    ensures
        r == family_of(command@, strings_view(argv@)),
{
    let cmd = chars_of(command);
    let ws = split_words(&cmd);
    let ghost av = strings_view(argv@);
    let first: Vec<char> = if argv.len() > 0 {
        chars_of(argv[0].as_str())
    } else if ws.len() > 0 {
        ws[0].clone()
    } else {
        Vec::new()
    };
    let second: Vec<char> = if argv.len() > 1 {
        chars_of(argv[1].as_str())
    } else if ws.len() > 1 {
        ws[1].clone()
    } else {
        Vec::new()
    };
    assert(first@ == first_word(command@, av));
    assert(second@ == second_word(command@, av));
    let unquoted = trim_char_vec(&first, '"');
    let exe = chars_of(".exe");
    let stripped = trim_suffix_all_vec(&unquoted, &exe);
    let program = lower_vec(&stripped);
    let sub = lower_vec(&second);
    if eq_str(&program, "git") {
        CommandFamily::Git
    } else if eq_str(&program, "cargo") {
        CommandFamily::Cargo
    } else if eq_str(&program, "dotnet") {
        CommandFamily::Dotnet
    } else if eq_str(&program, "npm") || eq_str(&program, "npx") {
        CommandFamily::Npm
    } else if eq_str(&program, "pnpm") {
        CommandFamily::Pnpm
    } else if eq_str(&program, "yarn") {
        CommandFamily::Yarn
    } else if eq_str(&program, "ng") {
        CommandFamily::Ng
    } else if eq_str(&program, "tsc") {
        CommandFamily::Tsc
    } else if eq_str(&program, "eslint") {
        CommandFamily::Eslint
    } else if eq_str(&program, "docker") && eq_str(&sub, "compose") {
        CommandFamily::DockerCompose
    } else if eq_str(&program, "docker-compose") {
        CommandFamily::DockerCompose
    } else if eq_str(&program, "docker") {
        CommandFamily::Docker
    } else if eq_str(&program, "rg") || eq_str(&program, "ripgrep") {
        CommandFamily::Rg
    } else if eq_str(&program, "grep") {
        CommandFamily::Grep
    } else if eq_str(&program, "cat") || eq_str(&program, "type") || eq_str(&program, "get-content") {
        CommandFamily::Cat
    } else if eq_str(&program, "tree") {
        CommandFamily::Tree
    } else {
        CommandFamily::Unknown
    }
}

} // verus!
