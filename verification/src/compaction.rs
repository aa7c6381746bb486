//! Compaction of captured command output: deterministic, line-based
//! summaries of what a build, test, search or version-control command
//! printed, cut to a byte budget. Nothing here runs a command; it reads the
//! output a caller already captured.

pub mod family;
pub mod git;
pub mod report;
pub mod tools;

use vstd::prelude::*;

use crate::compaction::family::{detect_command_family, family_of, CommandFamily};
use crate::compaction::git::{
    compact_git_diff, compact_git_status, git_diff_body, git_diff_fields, git_status_body,
    git_status_fields,
};
use crate::compaction::report::{
    budgeted, combined, combined_lines, enforce_budget, estimate_token_savings, fields_view,
    findings, key_findings, lemma_budget_respected, token_savings, Fields, MAX_FINDINGS,
};
use crate::compaction::tools::{
    build_body, build_fields, compact_build_like, compact_docker, compact_generic,
    compact_preview, compact_search, docker_body, docker_fields, generic_body, generic_fields,
    preview_body, preview_fields, search_body, search_fields,
};
use crate::text::{
    chars_of, contains, contains_str, has_non_ws, has_non_ws_vec, lemma_str_len, lines,
    lower, lower_vec, split_lines, string_from_chars, strings_view, utf8_len, vv, Lines,
};

verus! {

broadcast use vstd::string::group_string_axioms;

/// The budget used when the caller gives none.
pub const DEFAULT_MAX_BYTES: usize = 8000;

/// The smallest budget honoured.
pub const MIN_MAX_BYTES: usize = 256;

/// How a command's output is summarised.
#[derive(Debug, Clone, Copy, PartialEq, Eq, Structural)]
pub enum CompactionStrategy {
    GitStatus,
    GitDiff,
    Cargo,
    Dotnet,
    Javascript,
    Docker,
    Search,
    FilePreview,
    Generic,
}

/// Captured output of one command.
#[derive(Debug, Clone, PartialEq, Eq)]
pub struct CommandOutputInput {
    pub command: String,
    pub argv: Vec<String>,
    pub stdout: String,
    pub stderr: String,
    pub exit_code: Option<i32>,
    pub working_directory: Option<String>,
    pub max_bytes: Option<usize>,
}

/// A note about how the summary was made.
#[derive(Debug, Clone, PartialEq, Eq)]
pub struct CompactionWarning {
    pub code: String,
    pub message: String,
}

/// Counts and named values recorded while summarising.
#[derive(Debug, Clone, PartialEq, Eq, Default)]
pub struct CompactionMetadata {
    pub line_count: usize,
    pub stderr_line_count: usize,
    pub exit_code: Option<i32>,
    pub max_bytes: usize,
    /// Named values, ordered by name.
    pub fields: Vec<(String, String)>,
}

/// The summary of one command's output.
#[derive(Debug, Clone, PartialEq, Eq)]
pub struct CommandOutputSummary {
    pub compacted_output: String,
    pub key_findings: Vec<String>,
    pub warnings: Vec<CompactionWarning>,
    pub omitted_sections_count: usize,
    pub original_byte_estimate: usize,
    pub compacted_byte_estimate: usize,
    pub estimated_token_savings: usize,
    pub command_family: CommandFamily,
    pub strategy_used: CompactionStrategy,
    pub truncated: bool,
    pub metadata: CompactionMetadata,
}

pub type CompactionResult = CommandOutputSummary;

/// Summarises captured command output.
pub trait CommandOutputCompactor {
    fn compact(&self, input: CommandOutputInput) -> CompactionResult
        requires
            utf8_len(input.stdout@) + utf8_len(input.stderr@) <= usize::MAX,
    ;
}

/// The compactor that applies the local string rules.
#[derive(Debug, Clone, Default)]
pub struct LocalCommandOutputCompactor;

impl CommandOutputCompactor for LocalCommandOutputCompactor {
    fn compact(&self, input: CommandOutputInput) -> (r: CompactionResult)
        ensures
            summarises(input, r),
    {
        compact_command_output(input)
    }
}

/// The strategy for a command of `family` whose command line is `command`.
pub open spec fn strategy_for(family: CommandFamily, command: Seq<char>) -> CompactionStrategy {
    if family == CommandFamily::Git && contains(lower(command), "status"@) {
        CompactionStrategy::GitStatus
    } else if family == CommandFamily::Git && contains(lower(command), "diff"@) {
        CompactionStrategy::GitDiff
    } else {
        match family {
            CommandFamily::Cargo => CompactionStrategy::Cargo,
            CommandFamily::Dotnet => CompactionStrategy::Dotnet,
            CommandFamily::Npm | CommandFamily::Pnpm | CommandFamily::Yarn | CommandFamily::Ng
            | CommandFamily::Tsc | CommandFamily::Eslint => CompactionStrategy::Javascript,
            CommandFamily::Docker | CommandFamily::DockerCompose => CompactionStrategy::Docker,
            CommandFamily::Rg | CommandFamily::Grep => CompactionStrategy::Search,
            CommandFamily::Cat | CommandFamily::Tree => CompactionStrategy::FilePreview,
            _ => CompactionStrategy::Generic,
        }
    }
}

/// The summary text a strategy writes for the combined lines.
pub open spec fn strategy_body(
    strategy: CompactionStrategy,
    ls: Lines,
    exit_code: Option<i32>,
) -> Seq<char> {
    match strategy {
        CompactionStrategy::GitStatus => git_status_body(ls),
        CompactionStrategy::GitDiff => git_diff_body(ls),
        CompactionStrategy::Cargo => build_body(ls, exit_code, "cargo"@),
        CompactionStrategy::Dotnet => build_body(ls, exit_code, "dotnet"@),
        CompactionStrategy::Javascript => build_body(ls, exit_code, "javascript"@),
        CompactionStrategy::Docker => docker_body(ls, exit_code),
        CompactionStrategy::Search => search_body(ls),
        CompactionStrategy::FilePreview => preview_body(ls),
        CompactionStrategy::Generic => generic_body(ls, exit_code),
    }
}

/// The metadata a strategy records for the combined lines.
pub open spec fn strategy_fields(strategy: CompactionStrategy, ls: Lines) -> Fields {
    match strategy {
        CompactionStrategy::GitStatus => git_status_fields(ls),
        CompactionStrategy::GitDiff => git_diff_fields(ls),
        CompactionStrategy::Cargo | CompactionStrategy::Dotnet
        | CompactionStrategy::Javascript => build_fields(ls),
        CompactionStrategy::Docker => docker_fields(ls),
        CompactionStrategy::Search => search_fields(ls),
        CompactionStrategy::FilePreview => preview_fields(ls),
        CompactionStrategy::Generic => generic_fields(ls),
    }
}

/// The budget in force: the one asked for, else the default, and never
/// below the minimum.
pub open spec fn effective_max(max_bytes: Option<usize>) -> nat {
    let m = match max_bytes {
        Some(m) => m,
        None => DEFAULT_MAX_BYTES,
    };
    if m < MIN_MAX_BYTES {
        MIN_MAX_BYTES as nat
    } else {
        m as nat
    }
}

/// The warnings a summary carries, by code and message.
pub open spec fn warning_list(exit_code: Option<i32>, stderr: Seq<char>, truncated: bool) -> Seq<
    (Seq<char>, Seq<char>),
> {
    let a: Seq<(Seq<char>, Seq<char>)> = if exit_code.unwrap_or(0) != 0 {
        seq![("non_zero_exit"@, "command exited with a non-zero status"@)]
    } else {
        Seq::empty()
    };
    let b = if has_non_ws(stderr) {
        a.push(("stderr_present"@, "stderr was preserved in the compacted output"@))
    } else {
        a
    };
    if truncated {
        b.push(("truncated"@, "compacted output exceeded the requested budget"@))
    } else {
        b
    }
}

pub open spec fn warnings_view(v: Seq<CompactionWarning>) -> Seq<(Seq<char>, Seq<char>)> {
    v.map_values(|w: CompactionWarning| (w.code@, w.message@))
}

pub open spec fn input_family(input: CommandOutputInput) -> CommandFamily {
    family_of(input.command@, strings_view(input.argv@))
}

pub open spec fn input_strategy(input: CommandOutputInput) -> CompactionStrategy {
    strategy_for(input_family(input), input.command@)
}

pub open spec fn input_lines(input: CommandOutputInput) -> Lines {
    combined(input.stdout@, input.stderr@)
}

/// The summary text cut to the budget, whether it was cut, and how many
/// lines were left out.
pub open spec fn compacted(input: CommandOutputInput) -> (Seq<char>, bool, nat) {
    budgeted(
        strategy_body(input_strategy(input), input_lines(input), input.exit_code),
        effective_max(input.max_bytes),
    )
}

/// `r` is the summary of `input`.
pub open spec fn summarises(input: CommandOutputInput, r: CommandOutputSummary) -> bool {
    let cut = compacted(input);
    &&& r.command_family == input_family(input)
    &&& r.strategy_used == input_strategy(input)
    &&& r.compacted_output@ == cut.0
    &&& r.truncated == cut.1
    &&& r.omitted_sections_count == cut.2
    &&& r.original_byte_estimate == utf8_len(input.stdout@) + utf8_len(input.stderr@)
    &&& r.compacted_byte_estimate == utf8_len(cut.0)
    &&& r.estimated_token_savings == token_savings(
        r.original_byte_estimate as nat,
        r.compacted_byte_estimate as nat,
    )
    &&& strings_view(r.key_findings@) == findings(cut.0, input.exit_code)
    &&& warnings_view(r.warnings@) == warning_list(input.exit_code, input.stderr@, cut.1)
    &&& r.metadata.line_count == lines(input.stdout@).len()
    &&& r.metadata.stderr_line_count == lines(input.stderr@).len()
    &&& r.metadata.exit_code == input.exit_code
    &&& r.metadata.max_bytes == effective_max(input.max_bytes)
    &&& fields_view(r.metadata.fields@) == strategy_fields(input_strategy(input), input_lines(input))
}

/// Summarising is deterministic: two summaries of the same captured output
/// agree in every field, since each is fixed by the input alone.
pub proof fn lemma_summary_deterministic(input: CommandOutputInput, a: CommandOutputSummary, b: CommandOutputSummary)
    requires
        summarises(input, a),
        summarises(input, b),
    ensures
        a.command_family == b.command_family,
        a.strategy_used == b.strategy_used,
        a.compacted_output@ == b.compacted_output@,
        a.truncated == b.truncated,
        a.omitted_sections_count == b.omitted_sections_count,
        a.original_byte_estimate == b.original_byte_estimate,
        a.compacted_byte_estimate == b.compacted_byte_estimate,
        a.estimated_token_savings == b.estimated_token_savings,
        strings_view(a.key_findings@) == strings_view(b.key_findings@),
        warnings_view(a.warnings@) == warnings_view(b.warnings@),
        a.metadata.line_count == b.metadata.line_count,
        a.metadata.stderr_line_count == b.metadata.stderr_line_count,
        a.metadata.exit_code == b.metadata.exit_code,
        a.metadata.max_bytes == b.metadata.max_bytes,
        fields_view(a.metadata.fields@) == fields_view(b.metadata.fields@),
{
}

/// Chooses how to summarise a command of the given family.
pub fn compaction_strategy(family: CommandFamily, command: &str) -> (r: CompactionStrategy)
    ensures
        r == strategy_for(family, command@),
{
    let lowered = lower_vec(&chars_of(command));
    if family == CommandFamily::Git && contains_str(&lowered, "status") {
        CompactionStrategy::GitStatus
    } else if family == CommandFamily::Git && contains_str(&lowered, "diff") {
        CompactionStrategy::GitDiff
    } else {
        match family {
            CommandFamily::Cargo => CompactionStrategy::Cargo,
            CommandFamily::Dotnet => CompactionStrategy::Dotnet,
            CommandFamily::Npm | CommandFamily::Pnpm | CommandFamily::Yarn | CommandFamily::Ng
            | CommandFamily::Tsc | CommandFamily::Eslint => CompactionStrategy::Javascript,
            CommandFamily::Docker | CommandFamily::DockerCompose => CompactionStrategy::Docker,
            CommandFamily::Rg | CommandFamily::Grep => CompactionStrategy::Search,
            CommandFamily::Cat | CommandFamily::Tree => CompactionStrategy::FilePreview,
            _ => CompactionStrategy::Generic,
        }
    }
}

fn warning(code: &str, message: &str) -> (r: CompactionWarning)
    ensures
        r.code@ == code@,
        r.message@ == message@,
{
    CompactionWarning { code: code.to_owned(), message: message.to_owned() }
}

fn push_warning(warnings: &mut Vec<CompactionWarning>, code: &str, message: &str)
    ensures
        warnings_view(final(warnings)@) == warnings_view(old(warnings)@).push((code@, message@)),
{
    let ghost before = warnings_view(warnings@);
    warnings.push(warning(code, message));
    assert(warnings_view(warnings@) =~= before.push((code@, message@)));
}

/// Summarises captured command output: picks a strategy from the command,
/// summarises the combined lines, cuts the summary to the byte budget and
/// reports findings, warnings and metadata.
pub fn compact_command_output(input: CommandOutputInput) -> (r: CompactionResult)
    requires
        utf8_len(input.stdout@) + utf8_len(input.stderr@) <= usize::MAX,
    ensures
        summarises(input, r),
        r.compacted_byte_estimate <= effective_max(input.max_bytes),
        r.key_findings.len() <= MAX_FINDINGS,
{
    let family = detect_command_family(input.command.as_str(), input.argv.as_slice());
    let strategy = compaction_strategy(family, input.command.as_str());
    let max_bytes: usize = match input.max_bytes {
        Some(m) => if m < MIN_MAX_BYTES {
            MIN_MAX_BYTES
        } else {
            m
        },
        None => DEFAULT_MAX_BYTES,
    };
    let stdout = input.stdout.as_str();
    let stderr = input.stderr.as_str();
    proof {
        lemma_str_len(stdout);
        lemma_str_len(stderr);
    }
    let original_byte_estimate = stdout.len() + stderr.len();
    let stdout_lines = split_lines(&chars_of(stdout));
    let stderr_chars = chars_of(stderr);
    let stderr_lines = split_lines(&stderr_chars);
    let mut warnings: Vec<CompactionWarning> = Vec::new();
    assert(warnings_view(warnings@) =~= Seq::<(Seq<char>, Seq<char>)>::empty());
    let code: i32 = match input.exit_code {
        Some(c) => c,
        None => 0,
    };
    if code != 0 {
        push_warning(&mut warnings, "non_zero_exit", "command exited with a non-zero status");
    }
    if has_non_ws_vec(&stderr_chars) {
        push_warning(
            &mut warnings,
            "stderr_present",
            "stderr was preserved in the compacted output",
        );
    }
    let ls = combined_lines(stdout, stderr);
    let (body, fields) = match strategy {
        CompactionStrategy::GitStatus => compact_git_status(&ls),
        CompactionStrategy::GitDiff => compact_git_diff(&ls),
        CompactionStrategy::Cargo => compact_build_like(&ls, input.exit_code, "cargo"),
        CompactionStrategy::Dotnet => compact_build_like(&ls, input.exit_code, "dotnet"),
        CompactionStrategy::Javascript => compact_build_like(&ls, input.exit_code, "javascript"),
        CompactionStrategy::Docker => compact_docker(&ls, input.exit_code),
        CompactionStrategy::Search => compact_search(&ls),
        CompactionStrategy::FilePreview => compact_preview(&ls),
        CompactionStrategy::Generic => compact_generic(&ls, input.exit_code),
    };
    assert(body@ == strategy_body(strategy, vv(ls@), input.exit_code));
    let body_len = body.len();
    assert(body@.len() == body_len);
    proof {
        lemma_budget_respected(body@, max_bytes as nat);
    }
    let (out, truncated, omitted) = enforce_budget(body, max_bytes);
    if truncated {
        push_warning(
            &mut warnings,
            "truncated",
            "compacted output exceeded the requested budget",
        );
    }
    let findings_list = key_findings(&out, input.exit_code);
    assert(findings_list@.len() == strings_view(findings_list@).len());
    let compacted_output = string_from_chars(&out);
    let compacted_str = compacted_output.as_str();
    proof {
        lemma_str_len(compacted_str);
    }
    let compacted_byte_estimate = compacted_str.len();
    let metadata = CompactionMetadata {
        line_count: stdout_lines.len(),
        stderr_line_count: stderr_lines.len(),
        exit_code: input.exit_code,
        max_bytes,
        fields,
    };
    CommandOutputSummary {
        compacted_output,
        key_findings: findings_list,
        warnings,
        omitted_sections_count: omitted,
        original_byte_estimate,
        compacted_byte_estimate,
        estimated_token_savings: estimate_token_savings(
            original_byte_estimate,
            compacted_byte_estimate,
        ),
        command_family: family,
        strategy_used: strategy,
        truncated,
        metadata,
    }
}

} // verus!
