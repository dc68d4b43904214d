//! The command interpreter.
//!
//! `exec` takes a command line, recursively splits it on control
//! operators (`;`, `&`, `&&`, `|`, `>`, outermost first), tokenizes the
//! leaf command, expands each argument, and dispatches to a built-in
//! verb or to an external program.
//!
//! The interpreter itself performs no outside effect.  Every effect —
//! writing to the console log, reading or writing a file, spawning a
//! process, calling the judging service — is emitted as a [`Request`]
//! on a [`Wire`], and the interpreter consumes the matching [`Reply`]
//! from the same wire.  A caller that has every needed reply queued
//! gets the final [`ExecResult`]; when a reply is missing the
//! interpreter returns `None`, and the caller may perform the last
//! request, queue its reply, and run the same command again.  Because
//! the interpreter is deterministic in its inputs, the rerun retraces
//! the same requests and continues where it stopped.
//!
//! A reply whose shape does not match its request is treated as a
//! failed collaborator: the command reports status 1 and writes
//! nothing.

use vstd::prelude::*;

use crate::chars::str_eq;
use crate::env::Env;
use crate::lex::{lemma_sum_lens_elem, lemma_tokens_bounds, spec_tokens, tokenize, views_of};
use crate::split::{join_sp, oper_ix, spec_words, split_by_oper};
use crate::vars::{
    lemma_no_dollar_parts, lemma_part_len, lemma_parts_concat, spec_parts, split_out_variables,
};

verus! {

/// Where a command's textual result goes: to the visible console log,
/// or accumulated in a buffer for piping to the next stage.
#[derive(Clone, Copy, PartialEq, Eq, Structural, Default)]
pub enum OutputMode {
    #[default]
    ToConsole,
    Piped,
}

/// The outcome of running one command: a status code (0 means success)
/// and the text accumulated for piping.
pub struct ExecResult {
    pub status: i32,
    pub stdout: String,
}

/// An outside effect the interpreter asks its host to perform.
pub enum Request {
    /// Append a line to the visible console log.
    ConsolePrint(String),
    /// Append an error line to the visible console log.
    ConsoleError(String),
    /// Clear the visible console log.
    ConsoleClear,
    /// Ask the session service for a fuzzed input for this problem.
    Fuzz { slug: String },
    /// Submit a candidate solution to the judging service.
    Judge { slug: String, solution: String, source_path: String },
    /// Read a UTF-8 text file.
    ReadFile { path: String },
    /// Write a UTF-8 text file, replacing what was there.
    WriteFile { path: String, content: String },
    /// Spawn an external program with piped standard streams.
    Spawn { program: String, args: Vec<String>, stdin: Option<String> },
    /// The slug of the currently selected problem, if any.
    SelectedSlug,
    /// Stop the host application's run loop.
    Quit,
}

/// The host's answer to one [`Request`].
pub enum Reply {
    /// The effect was performed; nothing to report.
    Ack,
    /// Answer to [`Request::Fuzz`]: the service's text, or its error.
    FuzzOutcome(Result<Option<String>, String>),
    /// Answer to [`Request::Judge`]: the verdict text, or an error.
    JudgeOutcome(Result<String, String>),
    /// Answer to [`Request::ReadFile`]: the contents, or an error.
    FileContent(Result<String, String>),
    /// Answer to [`Request::WriteFile`].
    WriteOutcome(Result<(), String>),
    /// Answer to [`Request::Spawn`]: exit code and captured standard
    /// output, or the spawn failure.
    SpawnOutcome(Result<(i32, String), String>),
    /// Answer to [`Request::SelectedSlug`].
    Selected(Option<String>),
}

/// The exchange between the interpreter and its host: replies still
/// pending (front first) and the requests made so far.
pub struct Wire {
    pub pending: Vec<Reply>,
    pub requests: Vec<Request>,
}

impl Wire {
    /// A wire with the given replies queued.
    pub fn new(replies: Vec<Reply>) -> (r: Wire)
        ensures
            r.pending@ == replies@,
            r.requests@.len() == 0,
    {
        Wire { pending: replies, requests: Vec::new() }
    }

    /// Issues one request and takes the next queued reply, if any.
    pub fn ask(&mut self, req: Request) -> (r: Option<Reply>)
        ensures
            final(self).requests@ == old(self).requests@.push(req),
            old(self).pending@.len() > 0 ==> r == Some(old(self).pending@[0])
                && final(self).pending@ == old(self).pending@.drop_first(),
            old(self).pending@.len() == 0 ==> r is None
                && final(self).pending@ == old(self).pending@,
    {
        self.requests.push(req);
        if self.pending.len() > 0 {
            let rep = self.pending.remove(0);
            proof {
                assert(self.pending@ =~= old(self).pending@.drop_first());
            }
            Some(rep)
        } else {
            None
        }
    }
}

pub proof fn lemma_prefix_trans(a: Seq<Request>, b: Seq<Request>, c: Seq<Request>)
    requires
        a.is_prefix_of(b),
        b.is_prefix_of(c),
    ensures
        a.is_prefix_of(c),
{
    assert(c.subrange(0, a.len() as int) =~= b.subrange(0, a.len() as int));
}

pub proof fn lemma_prefix_push(a: Seq<Request>, req: Request)
    ensures
        a.is_prefix_of(a.push(req)),
{
    assert(a.push(req).subrange(0, a.len() as int) =~= a);
}

pub proof fn lemma_prefix_refl(a: Seq<Request>)
    ensures
        a.is_prefix_of(a),
{
    assert(a.subrange(0, a.len() as int) =~= a);
}

pub proof fn lemma_prefix_index(a: Seq<Request>, b: Seq<Request>, i: int)
    requires
        a.is_prefix_of(b),
        0 <= i < a.len(),
    ensures
        b[i] == a[i],
{
    assert(b.subrange(0, a.len() as int)[i] == b[i]);
}

/// A command's output sink.  In accumulate mode, written lines gather
/// in `stdout` with a trailing newline each; in console mode they go to
/// the console log through the wire.
pub struct Output {
    pub status: i32,
    pub stdout: String,
    pub mode: OutputMode,
}

impl Output {
    /// A fresh sink: status 0, empty buffer.
    pub fn new(mode: OutputMode) -> (r: Output)
        ensures
            r.status == 0,
            r.stdout@ == Seq::<char>::empty(),
            r.mode == mode,
    {
        Output { status: 0, stdout: String::new(), mode }
    }

    /// Writes one line to the sink.  Returns false when the console
    /// reply is missing (the run is suspended).
    pub fn println(&mut self, s: &str, wire: &mut Wire) -> (ok: bool)
        ensures
            final(self).status == old(self).status,
            final(self).mode == old(self).mode,
            old(self).mode is Piped ==> ({
                &&& ok
                &&& final(self).stdout@ == old(self).stdout@ + s@ + seq!['\n']
                &&& final(wire).requests@ == old(wire).requests@
                &&& final(wire).pending@ == old(wire).pending@
            }),
            old(self).mode is ToConsole ==> ({
                &&& final(self).stdout == old(self).stdout
                &&& final(wire).requests@.len() == old(wire).requests@.len() + 1
                &&& (final(wire).requests@.last() matches Request::ConsolePrint(t) && t@ == s@)
                &&& old(wire).requests@.is_prefix_of(final(wire).requests@)
                &&& (ok <==> old(wire).pending@.len() > 0)
                &&& (ok ==> final(wire).pending@ == old(wire).pending@.drop_first())
                &&& (!ok ==> final(wire).pending@ == old(wire).pending@)
            }),
    {
        match self.mode {
            OutputMode::Piped => {
                self.stdout.append(s);
                self.stdout.append("\n");
                proof {
                    reveal_strlit("\n");
                    assert("\n"@ =~= seq!['\n']);
                }
                true
            },
            OutputMode::ToConsole => {
                let t = s.to_owned();
                proof {
                    lemma_prefix_push(wire.requests@, Request::ConsolePrint(t));
                }
                let r = wire.ask(Request::ConsolePrint(t));
                r.is_some()
            },
        }
    }

    /// The sink's final result.
    pub fn result(self) -> (r: ExecResult)
        ensures
            r.status == self.status,
            r.stdout == self.stdout,
    {
        ExecResult { status: self.status, stdout: self.stdout }
    }
}

/// Sends one line to the console log; false when the reply is missing.
fn console_print(wire: &mut Wire, s: &str) -> (ok: bool)
    ensures
        old(wire).requests@.is_prefix_of(final(wire).requests@),
        final(wire).requests@.len() == old(wire).requests@.len() + 1,
        (final(wire).requests@.last() matches Request::ConsolePrint(t) && t@ == s@),
        ok <==> old(wire).pending@.len() > 0,
        ok ==> final(wire).pending@ == old(wire).pending@.drop_first(),
        !ok ==> final(wire).pending@ == old(wire).pending@ && final(wire).pending@.len() == 0,
{
    let t = s.to_owned();
    proof {
        lemma_prefix_push(wire.requests@, Request::ConsolePrint(t));
    }
    wire.ask(Request::ConsolePrint(t)).is_some()
}

/// Sends one error line to the console log; false when the reply is
/// missing.
fn console_error(wire: &mut Wire, s: &str) -> (ok: bool)
    ensures
        old(wire).requests@.is_prefix_of(final(wire).requests@),
        final(wire).requests@.len() == old(wire).requests@.len() + 1,
        (final(wire).requests@.last() matches Request::ConsoleError(t) && t@ == s@),
        ok <==> old(wire).pending@.len() > 0,
        ok ==> final(wire).pending@ == old(wire).pending@.drop_first(),
        !ok ==> final(wire).pending@ == old(wire).pending@ && final(wire).pending@.len() == 0,
{
    let t = s.to_owned();
    proof {
        lemma_prefix_push(wire.requests@, Request::ConsoleError(t));
    }
    wire.ask(Request::ConsoleError(t)).is_some()
}

/// Joins arguments with single spaces, as `echo` prints them.
fn join_args(args: &Vec<String>) -> (r: String)
    ensures
        r@ == join_sp(views_of(args@)),
{
    let ghost gvs = views_of(args@);
    let mut out = String::new();
    let mut k: usize = 0;
    while k < args.len()
        invariant
            k <= args@.len(),
            gvs == views_of(args@),
            out@ == join_sp(gvs.subrange(0, k as int)),
        decreases args@.len() - k,
    {
        proof {
            assert(gvs.subrange(0, k as int + 1) =~= gvs.subrange(0, k as int).push(
                gvs[k as int],
            ));
            crate::split::lemma_join_push(gvs.subrange(0, k as int), gvs[k as int]);
        }
        if k > 0 {
            out.append(" ");
            proof {
                reveal_strlit(" ");
                assert(" "@ =~= seq![' ']);
            }
        } else {
            proof {
                assert(gvs.subrange(0, 0) =~= Seq::<Seq<char>>::empty());
            }
        }
        out.append(args[k].as_str());
        k = k + 1;
    }
    proof {
        assert(gvs.subrange(0, gvs.len() as int) =~= gvs);
    }
    out
}

/// No character of `s` is a `$`.
pub open spec fn dollar_free(s: Seq<char>) -> bool {
    forall|k: int| 0 <= k < s.len() ==> s[k] != '$'
}

/// A run that names an ordinary variable: `$` then a name that is not
/// a command substitution and not a selected-problem pseudo-variable.
pub open spec fn named_var(p: Seq<char>) -> bool {
    &&& p.len() >= 2
    &&& p[0] == '$'
    &&& p[1] != '$'
    &&& !(p[1] == '(' && p.last() == ')')
    &&& p.skip(1) != "s"@
    &&& p.skip(1) != "selected"@
}

/// What one run contributes after expansion: a `$name` run becomes the
/// variable's value, a literal run stays.  Meaningful for runs that
/// are literal or name an ordinary variable.
pub open spec fn expand_part(p: Seq<char>, m: Map<Seq<char>, Seq<char>>) -> Seq<char> {
    if p.len() > 0 && p[0] == '$' {
        crate::env::env_value(m, p.skip(1))
    } else {
        p
    }
}

/// The expansion of a whole argument from its runs.
pub open spec fn expand_named(ps: Seq<Seq<char>>, m: Map<Seq<char>, Seq<char>>) -> Seq<char>
    decreases ps.len(),
{
    if ps.len() == 0 {
        Seq::empty()
    } else {
        expand_named(ps.drop_last(), m) + expand_part(ps.last(), m)
    }
}

pub proof fn lemma_expand_named_push(ps: Seq<Seq<char>>, p: Seq<char>, m: Map<Seq<char>, Seq<char>>)
    ensures
        expand_named(ps.push(p), m) == expand_named(ps, m) + expand_part(p, m),
{
    assert(ps.push(p).drop_last() =~= ps);
    assert(ps.push(p).last() == p);
}

/// Every run of the argument is literal or names an ordinary variable:
/// expansion then needs no recursion and no request.
pub open spec fn simple_runs(arg: Seq<char>) -> bool {
    forall|i: int|
        0 <= i < spec_parts(arg).len() ==> dollar_free(#[trigger] spec_parts(arg)[i]) || named_var(
            spec_parts(arg)[i],
        )
}

/// Does `op` occur as a top-level word of `cmd` (searched from the
/// right when `last` holds)?
pub open spec fn has_oper(cmd: Seq<char>, op: Seq<char>, last: bool) -> bool {
    oper_ix(spec_words(cmd), op, last) is Some
}

/// The words before the matched operator, re-joined.
pub open spec fn left_of(cmd: Seq<char>, op: Seq<char>, last: bool) -> Seq<char> {
    join_sp(spec_words(cmd).take(oper_ix(spec_words(cmd), op, last)->0))
}

/// The words after the matched operator, re-joined.
pub open spec fn right_of(cmd: Seq<char>, op: Seq<char>, last: bool) -> Seq<char> {
    join_sp(spec_words(cmd).skip(oper_ix(spec_words(cmd), op, last)->0 + 1))
}

/// No control operator occurs as a top-level word of `cmd`.
pub open spec fn no_top_opers(cmd: Seq<char>) -> bool {
    &&& oper_ix(spec_words(cmd), ";"@, false) is None
    &&& oper_ix(spec_words(cmd), "&"@, false) is None
    &&& oper_ix(spec_words(cmd), "&&"@, false) is None
    &&& oper_ix(spec_words(cmd), "|"@, true) is None
    &&& oper_ix(spec_words(cmd), ">"@, true) is None
}

/// Every argument token is free of variable references.
pub open spec fn literal_args(cmd: Seq<char>) -> bool {
    forall|i: int|
        1 <= i < spec_tokens(cmd).len() ==> dollar_free(#[trigger] spec_tokens(cmd)[i])
}

/// A command substitution run whose enclosed text is a plain `echo`:
/// `$(` then the echo command then `)`.  Its value is pinned exactly.
pub open spec fn echo_subst_run(p: Seq<char>) -> bool {
    &&& p.len() >= 3
    &&& p[0] == '$'
    &&& p[1] == '('
    &&& p.last() == ')'
    &&& plain_echo_env(p.subrange(2, p.len() - 1))
}

/// A run whose expansion the contracts pin exactly: literal, a bare
/// `$`, an ordinary variable, or an `echo` command substitution.
pub open spec fn run_pinned(p: Seq<char>) -> bool {
    dollar_free(p) || p == seq!['$'] || named_var(p) || echo_subst_run(p)
}

/// What a pinned run expands to under the environment `m`.
pub open spec fn run_value(p: Seq<char>, m: Map<Seq<char>, Seq<char>>) -> Seq<char> {
    if dollar_free(p) {
        p
    } else if p == seq!['$'] {
        "$"@
    } else if named_var(p) {
        crate::env::env_value(m, p.skip(1))
    } else {
        echo_text_env(p.subrange(2, p.len() - 1), m)
    }
}

/// The expansion of a whole argument from its pinned runs.
pub open spec fn expand_pinned(ps: Seq<Seq<char>>, m: Map<Seq<char>, Seq<char>>) -> Seq<char>
    decreases ps.len(),
{
    if ps.len() == 0 {
        Seq::empty()
    } else {
        expand_pinned(ps.drop_last(), m) + run_value(ps.last(), m)
    }
}

pub proof fn lemma_expand_pinned_push(
    ps: Seq<Seq<char>>,
    p: Seq<char>,
    m: Map<Seq<char>, Seq<char>>,
)
    ensures
        expand_pinned(ps.push(p), m) == expand_pinned(ps, m) + run_value(p, m),
{
    assert(ps.push(p).drop_last() =~= ps);
    assert(ps.push(p).last() == p);
}

/// Every run of the argument is pinned.
pub open spec fn pinned_runs(arg: Seq<char>) -> bool {
    forall|i: int|
        0 <= i < spec_parts(arg).len() ==> run_pinned(#[trigger] spec_parts(arg)[i])
}

/// Every argument token expands without recursion or requests.
pub open spec fn simple_args(cmd: Seq<char>) -> bool {
    forall|i: int|
        1 <= i < spec_tokens(cmd).len() ==> simple_runs(#[trigger] spec_tokens(cmd)[i])
}

/// An `echo` command with no operators whose arguments hold at most
/// ordinary variable references: its output under an environment is
/// pinned exactly by `exec`'s contract.
pub open spec fn plain_echo_env(cmd: Seq<char>) -> bool {
    &&& no_top_opers(cmd)
    &&& spec_tokens(cmd).len() >= 1
    &&& spec_tokens(cmd)[0] == "echo"@
    &&& simple_args(cmd)
}

/// What such an `echo` writes under the environment `m`: the expanded
/// arguments joined with single spaces.
pub open spec fn echo_text_env(cmd: Seq<char>, m: Map<Seq<char>, Seq<char>>) -> Seq<char> {
    join_sp(
        spec_tokens(cmd).skip(1).map_values(|t: Seq<char>| expand_named(spec_parts(t), m)),
    )
}

/// Every argument token consists of pinned runs.
pub open spec fn pinned_args(cmd: Seq<char>) -> bool {
    forall|i: int|
        1 <= i < spec_tokens(cmd).len() ==> pinned_runs(#[trigger] spec_tokens(cmd)[i])
}

/// An `echo` command with no operators whose arguments hold literal
/// text, bare dollars, ordinary variables, or `echo` substitutions.
pub open spec fn plain_echo_full(cmd: Seq<char>) -> bool {
    &&& no_top_opers(cmd)
    &&& spec_tokens(cmd).len() >= 1
    &&& spec_tokens(cmd)[0] == "echo"@
    &&& pinned_args(cmd)
}

/// What such an `echo` writes under the environment `m`.
pub open spec fn echo_text_full(cmd: Seq<char>, m: Map<Seq<char>, Seq<char>>) -> Seq<char> {
    join_sp(
        spec_tokens(cmd).skip(1).map_values(|t: Seq<char>| expand_pinned(spec_parts(t), m)),
    )
}

/// An `echo` command with no operators and no variable references: its
/// behavior is pinned exactly by `exec`'s contract.
pub open spec fn plain_echo(cmd: Seq<char>) -> bool {
    &&& no_top_opers(cmd)
    &&& spec_tokens(cmd).len() >= 1
    &&& spec_tokens(cmd)[0] == "echo"@
    &&& literal_args(cmd)
}

/// A `;` pair of two plain `echo` commands.
pub open spec fn seq_echo_pair(cmd: Seq<char>) -> bool {
    &&& has_oper(cmd, ";"@, false)
    &&& plain_echo_full(left_of(cmd, ";"@, false))
    &&& plain_echo_full(right_of(cmd, ";"@, false))
}

/// An `&` pair of two plain `echo` commands.
pub open spec fn conc_echo_pair(cmd: Seq<char>) -> bool {
    &&& !has_oper(cmd, ";"@, false)
    &&& has_oper(cmd, "&"@, false)
    &&& plain_echo_full(left_of(cmd, "&"@, false))
    &&& plain_echo_full(right_of(cmd, "&"@, false))
}

/// An `&&` pair whose left half is a plain `echo` (it succeeds, so the
/// right half runs) and whose right half is a plain `echo`.
pub open spec fn and_echo_pair(cmd: Seq<char>) -> bool {
    &&& !has_oper(cmd, ";"@, false)
    &&& !has_oper(cmd, "&"@, false)
    &&& has_oper(cmd, "&&"@, false)
    &&& plain_echo_full(left_of(cmd, "&&"@, false))
    &&& plain_echo_full(right_of(cmd, "&&"@, false))
}

/// An `&&` pair whose left half is a misused `cat` (it fails, so the
/// right half is skipped).
pub open spec fn and_gate_failure(cmd: Seq<char>) -> bool {
    &&& !has_oper(cmd, ";"@, false)
    &&& !has_oper(cmd, "&"@, false)
    &&& has_oper(cmd, "&&"@, false)
    &&& plain_cat_misused(left_of(cmd, "&&"@, false))
}

/// A leaf `judge` command with two literal arguments.
pub open spec fn plain_judge(cmd: Seq<char>) -> bool {
    &&& no_top_opers(cmd)
    &&& spec_tokens(cmd).len() == 3
    &&& (spec_tokens(cmd)[0] == "judge"@ || spec_tokens(cmd)[0] == "j"@)
    &&& literal_args(cmd)
}

/// A leaf `cat` command whose argument count is wrong.
pub open spec fn plain_cat_misused(cmd: Seq<char>) -> bool {
    &&& no_top_opers(cmd)
    &&& spec_tokens(cmd).len() >= 1
    &&& spec_tokens(cmd)[0] == "cat"@
    &&& spec_tokens(cmd).len() != 2
    &&& literal_args(cmd)
}

/// A leaf `fuzz` command whose argument count is wrong.
pub open spec fn plain_fuzz_misused(cmd: Seq<char>) -> bool {
    &&& no_top_opers(cmd)
    &&& spec_tokens(cmd).len() >= 1
    &&& (spec_tokens(cmd)[0] == "fuzz"@ || spec_tokens(cmd)[0] == "f"@)
    &&& spec_tokens(cmd).len() != 2
    &&& literal_args(cmd)
}

/// A leaf `judge` command whose argument count is wrong.
pub open spec fn plain_judge_misused(cmd: Seq<char>) -> bool {
    &&& no_top_opers(cmd)
    &&& spec_tokens(cmd).len() >= 1
    &&& (spec_tokens(cmd)[0] == "judge"@ || spec_tokens(cmd)[0] == "j"@)
    &&& spec_tokens(cmd).len() != 3
    &&& literal_args(cmd)
}

/// A pipe whose left half is a plain `echo` and whose right half is a
/// `judge` command: the captured echo text becomes the submission.
pub open spec fn pipe_echo_judge(cmd: Seq<char>) -> bool {
    &&& !has_oper(cmd, ";"@, false)
    &&& !has_oper(cmd, "&"@, false)
    &&& !has_oper(cmd, "&&"@, false)
    &&& has_oper(cmd, "|"@, true)
    &&& plain_echo_full(left_of(cmd, "|"@, true))
    &&& plain_judge(right_of(cmd, "|"@, true))
}

/// A redirect whose left half is a plain `echo` and whose target
/// expands without requests.
pub open spec fn redirect_echo(cmd: Seq<char>) -> bool {
    &&& !has_oper(cmd, ";"@, false)
    &&& !has_oper(cmd, "&"@, false)
    &&& !has_oper(cmd, "&&"@, false)
    &&& !has_oper(cmd, "|"@, true)
    &&& has_oper(cmd, ">"@, true)
    &&& plain_echo_full(left_of(cmd, ">"@, true))
    &&& pinned_runs(right_of(cmd, ">"@, true))
}

/// A leaf `cat` command with one literal argument.
pub open spec fn plain_cat(cmd: Seq<char>) -> bool {
    &&& no_top_opers(cmd)
    &&& spec_tokens(cmd).len() == 2
    &&& spec_tokens(cmd)[0] == "cat"@
    &&& literal_args(cmd)
}

/// A leaf `fuzz` command with one literal argument.
pub open spec fn plain_fuzz(cmd: Seq<char>) -> bool {
    &&& no_top_opers(cmd)
    &&& spec_tokens(cmd).len() == 2
    &&& (spec_tokens(cmd)[0] == "fuzz"@ || spec_tokens(cmd)[0] == "f"@)
    &&& literal_args(cmd)
}

/// A leaf command whose verb is no built-in: it runs as an external
/// program.
pub open spec fn plain_external(cmd: Seq<char>) -> bool {
    &&& no_top_opers(cmd)
    &&& spec_tokens(cmd).len() >= 1
    &&& spec_tokens(cmd)[0] != "h"@
    &&& spec_tokens(cmd)[0] != "help"@
    &&& spec_tokens(cmd)[0] != "f"@
    &&& spec_tokens(cmd)[0] != "fuzz"@
    &&& spec_tokens(cmd)[0] != "j"@
    &&& spec_tokens(cmd)[0] != "judge"@
    &&& spec_tokens(cmd)[0] != "clear"@
    &&& spec_tokens(cmd)[0] != "echo"@
    &&& spec_tokens(cmd)[0] != "cat"@
    &&& spec_tokens(cmd)[0] != "q"@
    &&& spec_tokens(cmd)[0] != "quit"@
    &&& spec_tokens(cmd)[0] != "exit"@
    &&& literal_args(cmd)
}

/// A leaf `help` command.
pub open spec fn plain_help(cmd: Seq<char>) -> bool {
    &&& no_top_opers(cmd)
    &&& spec_tokens(cmd).len() == 1
    &&& (spec_tokens(cmd)[0] == "help"@ || spec_tokens(cmd)[0] == "h"@)
}

/// A leaf `quit` command, under any of its three spellings.
pub open spec fn plain_quit(cmd: Seq<char>) -> bool {
    &&& no_top_opers(cmd)
    &&& spec_tokens(cmd).len() == 1
    &&& (spec_tokens(cmd)[0] == "q"@ || spec_tokens(cmd)[0] == "quit"@ || spec_tokens(cmd)[0]
        == "exit"@)
}

/// The complaint printed when `judge` gets no piped input.
pub open spec fn missing_solution_text() -> Seq<char> {
    "No solution was provided. Please pipe the solution into this command. e.g. `echo \"solution\" | judge <slug> <source-path>`"@
}

/// What a plain `echo` writes: its arguments joined with single spaces.
pub open spec fn echo_text(cmd: Seq<char>) -> Seq<char> {
    join_sp(spec_tokens(cmd).skip(1))
}

/// Runs one command line.
///
/// Splits on `;`, `&`, `&&` (leftmost) then `|`, `>` (rightmost), each
/// operator recognized only as its own top-level word; then tokenizes
/// the leaf, expands every argument, and dispatches.  `None` means a
/// reply was missing from the wire: the host performs the last request
/// and runs the command again with the reply queued.
///
/// The contract pins the behavior of the command families whose
/// sub-results are themselves pinned: `echo` with literal, variable
/// and `echo`-substitution arguments (exact text, both sink modes);
/// the `;`, `&` and `&&` pairs of such commands, including the `&&`
/// status gate in both directions; the pipe of an `echo` into `judge`
/// and the redirect of an `echo`, with the exact request payloads; the
/// `cat`, `fuzz`, `judge` and external-program leaves, with their
/// request payloads and the result for each reply; the usage errors of
/// `fuzz`, `judge` and `cat`; `judge`'s refusal without piped input;
/// and `quit`.
#[verifier::loop_isolation(false)]
#[verifier::rlimit(100)]
pub fn exec(command: &str, mode: OutputMode, piped_input: Option<String>, env: &Env, wire: &mut Wire) -> (r: Option<
    ExecResult,
>)
    ensures
        old(wire).requests@.is_prefix_of(final(wire).requests@),
        r is None ==> final(wire).pending@.len() == 0,
        plain_echo(command@) && mode is Piped ==> ({
            &&& r is Some
            &&& r->0.status == 0
            &&& r->0.stdout@ == echo_text(command@) + seq!['\n']
            &&& final(wire).requests@ == old(wire).requests@
            &&& final(wire).pending@ == old(wire).pending@
        }),
        plain_echo(command@) && mode is ToConsole && old(wire).pending@.len() > 0 ==> ({
            &&& r is Some
            &&& r->0.status == 0
            &&& r->0.stdout@.len() == 0
            &&& final(wire).requests@.len() == old(wire).requests@.len() + 1
            &&& (final(wire).requests@.last() matches Request::ConsolePrint(t) && t@ == echo_text(
                command@,
            ))
            &&& final(wire).pending@ == old(wire).pending@.drop_first()
        }),
        plain_echo_env(command@) && mode is Piped ==> ({
            &&& r is Some
            &&& r->0.status == 0
            &&& r->0.stdout@ == echo_text_env(command@, env@) + seq!['\n']
            &&& final(wire).requests@ == old(wire).requests@
            &&& final(wire).pending@ == old(wire).pending@
        }),
        plain_echo_env(command@) && mode is ToConsole && old(wire).pending@.len() > 0 ==> ({
            &&& r is Some
            &&& r->0.status == 0
            &&& r->0.stdout@.len() == 0
            &&& final(wire).requests@.len() == old(wire).requests@.len() + 1
            &&& (final(wire).requests@.last() matches Request::ConsolePrint(t) && t@
                == echo_text_env(command@, env@))
            &&& final(wire).pending@ == old(wire).pending@.drop_first()
        }),
        plain_echo_full(command@) && mode is Piped ==> ({
            &&& r is Some
            &&& r->0.status == 0
            &&& r->0.stdout@ == echo_text_full(command@, env@) + seq!['\n']
            &&& final(wire).requests@ == old(wire).requests@
            &&& final(wire).pending@ == old(wire).pending@
        }),
        plain_echo_full(command@) && mode is ToConsole && old(wire).pending@.len() > 0 ==> ({
            &&& r is Some
            &&& r->0.status == 0
            &&& r->0.stdout@.len() == 0
            &&& final(wire).requests@.len() == old(wire).requests@.len() + 1
            &&& (final(wire).requests@.last() matches Request::ConsolePrint(t) && t@
                == echo_text_full(command@, env@))
            &&& final(wire).pending@ == old(wire).pending@.drop_first()
        }),
        seq_echo_pair(command@) && mode is Piped ==> ({
            &&& r is Some
            &&& r->0.status == 0
            &&& r->0.stdout@ == echo_text_full(right_of(command@, ";"@, false), env@)
                + seq!['\n']
            &&& final(wire).requests@ == old(wire).requests@
            &&& final(wire).pending@ == old(wire).pending@
        }),
        seq_echo_pair(command@) && mode is ToConsole && old(wire).pending@.len() >= 2 ==> ({
            &&& r is Some
            &&& r->0.status == 0
            &&& r->0.stdout@.len() == 0
            &&& final(wire).requests@.len() == old(wire).requests@.len() + 2
            &&& (final(wire).requests@[old(wire).requests@.len() as int]
                matches Request::ConsolePrint(t) && t@ == echo_text_full(
                left_of(command@, ";"@, false),
                env@,
            ))
            &&& (final(wire).requests@.last() matches Request::ConsolePrint(t) && t@
                == echo_text_full(right_of(command@, ";"@, false), env@))
            &&& final(wire).pending@ == old(wire).pending@.drop_first().drop_first()
        }),
        conc_echo_pair(command@) && mode is Piped ==> ({
            &&& r is Some
            &&& r->0.status == 0
            &&& r->0.stdout@.len() == 0
            &&& final(wire).requests@ == old(wire).requests@
            &&& final(wire).pending@ == old(wire).pending@
        }),
        conc_echo_pair(command@) && mode is ToConsole && old(wire).pending@.len() >= 2 ==> ({
            &&& r is Some
            &&& r->0.status == 0
            &&& r->0.stdout@.len() == 0
            &&& final(wire).requests@.len() == old(wire).requests@.len() + 2
            &&& (final(wire).requests@[old(wire).requests@.len() as int]
                matches Request::ConsolePrint(t) && t@ == echo_text_full(
                left_of(command@, "&"@, false),
                env@,
            ))
            &&& (final(wire).requests@.last() matches Request::ConsolePrint(t) && t@
                == echo_text_full(right_of(command@, "&"@, false), env@))
            &&& final(wire).pending@ == old(wire).pending@.drop_first().drop_first()
        }),
        and_echo_pair(command@) && mode is Piped ==> ({
            &&& r is Some
            &&& r->0.status == 0
            &&& r->0.stdout@ == echo_text_full(right_of(command@, "&&"@, false), env@)
                + seq!['\n']
            &&& final(wire).requests@ == old(wire).requests@
            &&& final(wire).pending@ == old(wire).pending@
        }),
        and_echo_pair(command@) && mode is ToConsole && old(wire).pending@.len() >= 2 ==> ({
            &&& r is Some
            &&& r->0.status == 0
            &&& r->0.stdout@.len() == 0
            &&& final(wire).requests@.len() == old(wire).requests@.len() + 2
            &&& (final(wire).requests@[old(wire).requests@.len() as int]
                matches Request::ConsolePrint(t) && t@ == echo_text_full(
                left_of(command@, "&&"@, false),
                env@,
            ))
            &&& (final(wire).requests@.last() matches Request::ConsolePrint(t) && t@
                == echo_text_full(right_of(command@, "&&"@, false), env@))
            &&& final(wire).pending@ == old(wire).pending@.drop_first().drop_first()
        }),
        and_gate_failure(command@) && mode is ToConsole && old(wire).pending@.len() > 0 ==> ({
            &&& r is Some
            &&& r->0.status == 1
            &&& r->0.stdout@.len() == 0
            &&& final(wire).requests@.len() == old(wire).requests@.len() + 1
            &&& (final(wire).requests@.last() matches Request::ConsoleError(t) && t@
                == "Usage: cat <file-path>"@)
            &&& final(wire).pending@ == old(wire).pending@.drop_first()
        }),
        plain_judge(command@) && piped_input is None && old(wire).pending@.len() > 0 ==> ({
            &&& r is Some
            &&& r->0.status == 1
            &&& r->0.stdout@.len() == 0
            &&& final(wire).requests@.len() == old(wire).requests@.len() + 1
            &&& (final(wire).requests@.last() matches Request::ConsoleError(t) && t@
                == missing_solution_text())
            &&& final(wire).pending@ == old(wire).pending@.drop_first()
        }),
        plain_cat_misused(command@) && old(wire).pending@.len() > 0 ==> ({
            &&& r is Some
            &&& r->0.status == 1
            &&& r->0.stdout@.len() == 0
            &&& final(wire).requests@.len() == old(wire).requests@.len() + 1
            &&& (final(wire).requests@.last() matches Request::ConsoleError(t) && t@
                == "Usage: cat <file-path>"@)
            &&& final(wire).pending@ == old(wire).pending@.drop_first()
        }),
        plain_fuzz_misused(command@) && old(wire).pending@.len() > 0 ==> ({
            &&& r is Some
            &&& r->0.status == 1
            &&& r->0.stdout@.len() == 0
            &&& final(wire).requests@.len() == old(wire).requests@.len() + 1
            &&& (final(wire).requests@.last() matches Request::ConsoleError(t) && t@
                == "Usage: fuzz <slug>"@)
            &&& final(wire).pending@ == old(wire).pending@.drop_first()
        }),
        plain_judge_misused(command@) && old(wire).pending@.len() > 0 ==> ({
            &&& r is Some
            &&& r->0.status == 1
            &&& r->0.stdout@.len() == 0
            &&& final(wire).requests@.len() == old(wire).requests@.len() + 1
            &&& (final(wire).requests@.last() matches Request::ConsoleError(t) && t@
                == "Usage: judge <slug> <source-path>"@)
            &&& final(wire).pending@ == old(wire).pending@.drop_first()
        }),
        pipe_echo_judge(command@) && mode is ToConsole && old(wire).pending@.len() >= 3
            ==> match old(wire).pending@[1] {
            Reply::JudgeOutcome(v) => ({
                &&& r is Some
                &&& r->0.stdout@.len() == 0
                &&& final(wire).requests@.len() == old(wire).requests@.len() + 3
                &&& (final(wire).requests@[old(wire).requests@.len() as int]
                    matches Request::ConsolePrint(t) && t@ == "Request sent..."@)
                &&& (final(wire).requests@[old(wire).requests@.len() as int + 1]
                    matches Request::Judge { slug, solution, source_path } && slug@
                    == spec_tokens(right_of(command@, "|"@, true))[1] && solution@
                    == echo_text_full(left_of(command@, "|"@, true), env@) + seq!['\n']
                    && source_path@ == spec_tokens(right_of(command@, "|"@, true))[2])
                &&& match v {
                    Ok(m) => r->0.status == 0 && (final(wire).requests@.last()
                        matches Request::ConsolePrint(t) && t@ == m@),
                    Err(e) => r->0.status == 1 && (final(wire).requests@.last()
                        matches Request::ConsolePrint(t) && t@ == e@),
                }
                &&& final(wire).pending@ == old(wire).pending@.drop_first().drop_first().drop_first()
            }),
            _ => true,
        },
        redirect_echo(command@) && old(wire).pending@.len() >= 1 ==> match old(wire).pending@[0] {
            Reply::WriteOutcome(v) => ({
                &&& (final(wire).requests@[old(wire).requests@.len() as int]
                    matches Request::WriteFile { path, content } && path@ == expand_pinned(
                    spec_parts(right_of(command@, ">"@, true)),
                    env@,
                ) && content@ == echo_text_full(left_of(command@, ">"@, true), env@)
                    + seq!['\n'])
                &&& match v {
                    Ok(_) => r is Some && r->0.status == 0 && r->0.stdout@.len() == 0 && final(wire).requests@.len() == old(wire).requests@.len() + 1 && final(wire).pending@
                        == old(wire).pending@.drop_first(),
                    Err(e) => mode is Piped ==> (r is Some && r->0.status == 1 && r->0.stdout@
                        == e@ + seq!['\n'] && final(wire).requests@.len() == old(wire).requests@.len() + 1 && final(wire).pending@ == old(wire).pending@.drop_first()),
                }
            }),
            _ => true,
        },
        plain_cat(command@) && mode is ToConsole && old(wire).pending@.len() >= 2 ==> match old(wire).pending@[0] {
            Reply::FileContent(v) => ({
                &&& r is Some
                &&& r->0.stdout@.len() == 0
                &&& final(wire).requests@.len() == old(wire).requests@.len() + 2
                &&& (final(wire).requests@[old(wire).requests@.len() as int]
                    matches Request::ReadFile { path } && path@ == spec_tokens(command@)[1])
                &&& match v {
                    Ok(c) => r->0.status == 0 && (final(wire).requests@.last()
                        matches Request::ConsolePrint(t) && t@ == c@),
                    Err(e) => r->0.status == 1 && (final(wire).requests@.last()
                        matches Request::ConsolePrint(t) && t@ == e@),
                }
                &&& final(wire).pending@ == old(wire).pending@.drop_first().drop_first()
            }),
            _ => true,
        },
        plain_fuzz(command@) && mode is ToConsole && old(wire).pending@.len() >= 3 ==> match old(wire).pending@[1] {
            Reply::FuzzOutcome(v) => ({
                &&& r is Some
                &&& r->0.stdout@.len() == 0
                &&& final(wire).requests@.len() == old(wire).requests@.len() + 3
                &&& (final(wire).requests@[old(wire).requests@.len() as int]
                    matches Request::ConsolePrint(t) && t@ == "Request sent..."@)
                &&& (final(wire).requests@[old(wire).requests@.len() as int + 1]
                    matches Request::Fuzz { slug } && slug@ == spec_tokens(command@)[1])
                &&& match v {
                    Ok(opt) => r->0.status == 0 && match opt {
                        Some(m) => (final(wire).requests@.last()
                            matches Request::ConsolePrint(t) && t@ == m@),
                        None => (final(wire).requests@.last() matches Request::ConsolePrint(t)
                            && t@.len() == 0),
                    },
                    Err(e) => r->0.status == 1 && (final(wire).requests@.last()
                        matches Request::ConsolePrint(t) && t@ == e@),
                }
                &&& final(wire).pending@ == old(wire).pending@.drop_first().drop_first().drop_first()
            }),
            _ => true,
        },
        plain_judge(command@) && mode is ToConsole && old(wire).pending@.len() >= 3 ==> match (
            piped_input,
            old(wire).pending@[1],
        ) {
            (Some(sol), Reply::JudgeOutcome(v)) => ({
                &&& r is Some
                &&& r->0.stdout@.len() == 0
                &&& final(wire).requests@.len() == old(wire).requests@.len() + 3
                &&& (final(wire).requests@[old(wire).requests@.len() as int]
                    matches Request::ConsolePrint(t) && t@ == "Request sent..."@)
                &&& (final(wire).requests@[old(wire).requests@.len() as int + 1]
                    matches Request::Judge { slug, solution, source_path } && slug@
                    == spec_tokens(command@)[1] && solution@ == sol@ && source_path@
                    == spec_tokens(command@)[2])
                &&& match v {
                    Ok(m) => r->0.status == 0 && (final(wire).requests@.last()
                        matches Request::ConsolePrint(t) && t@ == m@),
                    Err(e) => r->0.status == 1 && (final(wire).requests@.last()
                        matches Request::ConsolePrint(t) && t@ == e@),
                }
                &&& final(wire).pending@ == old(wire).pending@.drop_first().drop_first().drop_first()
            }),
            _ => true,
        },
        plain_external(command@) && mode is ToConsole && old(wire).pending@.len() >= 2
            ==> match old(wire).pending@[0] {
            Reply::SpawnOutcome(v) => ({
                &&& r is Some
                &&& r->0.stdout@.len() == 0
                &&& final(wire).requests@.len() == old(wire).requests@.len() + 2
                &&& (final(wire).requests@[old(wire).requests@.len() as int]
                    matches Request::Spawn { program, args, stdin } && program@ == spec_tokens(
                    command@,
                )[0] && views_of(args@) == spec_tokens(command@).skip(1) && stdin
                    == piped_input)
                &&& match v {
                    Ok(p) => r->0.status == p.0 && (final(wire).requests@.last()
                        matches Request::ConsolePrint(t) && t@ == p.1@),
                    Err(e) => r->0.status == 1 && (final(wire).requests@.last()
                        matches Request::ConsolePrint(t) && t@ == e@),
                }
                &&& final(wire).pending@ == old(wire).pending@.drop_first().drop_first()
            }),
            _ => true,
        },
        plain_help(command@) && mode is ToConsole && old(wire).pending@.len() >= 8 ==> ({
            &&& r is Some
            &&& r->0.status == 0
            &&& r->0.stdout@.len() == 0
            &&& final(wire).requests@.len() == old(wire).requests@.len() + 8
            &&& (final(wire).requests@[old(wire).requests@.len() as int]
                matches Request::ConsolePrint(t) && t@ == "Commands:"@)
            &&& (final(wire).requests@[old(wire).requests@.len() as int + 1]
                matches Request::ConsolePrint(t) && t@ == "  help"@)
            &&& (final(wire).requests@[old(wire).requests@.len() as int + 2]
                matches Request::ConsolePrint(t) && t@ == "  fuzz <slug>"@)
            &&& (final(wire).requests@[old(wire).requests@.len() as int + 3]
                matches Request::ConsolePrint(t) && t@
                == "  judge <slug> <solution> <source-path>"@)
            &&& (final(wire).requests@[old(wire).requests@.len() as int + 4]
                matches Request::ConsolePrint(t) && t@ == "  clear"@)
            &&& (final(wire).requests@[old(wire).requests@.len() as int + 5]
                matches Request::ConsolePrint(t) && t@ == "  echo <message>"@)
            &&& (final(wire).requests@[old(wire).requests@.len() as int + 6]
                matches Request::ConsolePrint(t) && t@ == "  cat <file-path>"@)
            &&& (final(wire).requests@[old(wire).requests@.len() as int + 7]
                matches Request::ConsolePrint(t) && t@ == "  quit"@)
            &&& final(wire).pending@ == old(wire).pending@.skip(8)
        }),
        plain_quit(command@) && old(wire).pending@.len() > 0 ==> ({
            &&& r is Some
            &&& r->0.status == 0
            &&& r->0.stdout@.len() == 0
            &&& final(wire).requests@.len() == old(wire).requests@.len() + 1
            &&& final(wire).requests@.last() is Quit
            &&& final(wire).pending@ == old(wire).pending@.drop_first()
        }),
    decreases command@.len(), 2int,
{
    let ghost w0 = wire.requests@;
    let ghost p0 = wire.pending@;
    let ghost gpiped = piped_input;
    proof {
        lemma_prefix_refl(w0);
    }

    // `;` — sequence: both halves run, the right one reports.
    if let Some((l, rr)) = split_by_oper(command, ";", false) {
        match exec(l.as_str(), mode, None, env, wire) {
            None => {
                return None;
            },
            Some(_) => {},
        }
        let ghost w1 = wire.requests@;
        let res = exec(rr.as_str(), mode, None, env, wire);
        proof {
            lemma_prefix_trans(w0, w1, wire.requests@);
            if seq_echo_pair(command@) && mode is ToConsole && p0.len() >= 2 {
                lemma_prefix_index(w1, wire.requests@, w0.len() as int);
            }
        }
        return res;
    }
    // `&` — both halves run to completion before the call returns; no
    // ordering between them is promised, and the pair reports success.
    if let Some((l, rr)) = split_by_oper(command, "&", false) {
        match exec(l.as_str(), mode, None, env, wire) {
            None => {
                return None;
            },
            Some(_) => {},
        }
        let ghost w1 = wire.requests@;
        match exec(rr.as_str(), mode, None, env, wire) {
            None => {
                proof {
                    lemma_prefix_trans(w0, w1, wire.requests@);
                }
                return None;
            },
            Some(_) => {},
        }
        proof {
            lemma_prefix_trans(w0, w1, wire.requests@);
            if conc_echo_pair(command@) && mode is ToConsole && p0.len() >= 2 {
                lemma_prefix_index(w1, wire.requests@, w0.len() as int);
            }
        }
        return Some(ExecResult { status: 0, stdout: String::new() });
    }
    // `&&` — the right half runs only if the left succeeded.
    if let Some((l, rr)) = split_by_oper(command, "&&", false) {
        let lres = match exec(l.as_str(), mode, None, env, wire) {
            None => {
                return None;
            },
            Some(x) => x,
        };
        if lres.status == 0 {
            let ghost w1 = wire.requests@;
                let res = exec(rr.as_str(), mode, None, env, wire);
            proof {
                lemma_prefix_trans(w0, w1, wire.requests@);
                if and_echo_pair(command@) && mode is ToConsole && p0.len() >= 2 {
                    lemma_prefix_index(w1, wire.requests@, w0.len() as int);
                }
            }
            return res;
        } else {
            return Some(lres);
        }
    }
    // `|` — the left half accumulates; its output becomes the right
    // half's piped input.
    if let Some((l, rr)) = split_by_oper(command, "|", true) {
        let lres = match exec(l.as_str(), OutputMode::Piped, None, env, wire) {
            None => {
                return None;
            },
            Some(x) => x,
        };
        let ghost w1 = wire.requests@;
        proof {
            if pipe_echo_judge(command@) {
                assert(w1 == w0 && wire.pending@ == p0);
                assert(lres.stdout@ == echo_text_full(left_of(command@, "|"@, true), env@)
                    + seq!['\n']);
            }
        }
        let res = exec(rr.as_str(), mode, Some(lres.stdout), env, wire);
        proof {
            lemma_prefix_trans(w0, w1, wire.requests@);
        }
        return res;
    }
    // `>` — the left half accumulates; the right half is expanded as a
    // file path and receives the captured output.
    if let Some((l, rr)) = split_by_oper(command, ">", true) {
        let lres = match exec(l.as_str(), OutputMode::Piped, None, env, wire) {
            None => {
                return None;
            },
            Some(x) => x,
        };
        let ghost w1 = wire.requests@;
        let target = match process_arg(rr.as_str(), env, wire) {
            None => {
                proof {
                    lemma_prefix_trans(w0, w1, wire.requests@);
                }
                return None;
            },
            Some(t) => t,
        };
        let ghost w2 = wire.requests@;
        proof {
            lemma_prefix_trans(w0, w1, w2);
            lemma_prefix_push(w2, Request::WriteFile { path: target, content: lres.stdout });
        }
        let rep = wire.ask(Request::WriteFile { path: target, content: lres.stdout });
        proof {
            lemma_prefix_trans(w0, w2, wire.requests@);
        }
        match rep {
            None => {
                return None;
            },
            Some(Reply::WriteOutcome(out)) => match out {
                Ok(_) => {
                    return Some(ExecResult { status: 0, stdout: String::new() });
                },
                Err(e) => {
                    let ghost w3 = wire.requests@;
                    let mut output = Output::new(mode);
                    output.status = 1;
                    let ok = output.println(e.as_str(), wire);
                    proof {
                        lemma_prefix_trans(w0, w3, wire.requests@);
                        if redirect_echo(command@) && p0.len() >= 1 && p0[0] is WriteOutcome {
                            lemma_prefix_index(w3, wire.requests@, w0.len() as int);
                        }
                    }
                    if !ok {
                        return None;
                    }
                    return Some(output.result());
                },
            },
            Some(_) => {
                return Some(ExecResult { status: 1, stdout: String::new() });
            },
        }
    }

    // Leaf command.
    let words = tokenize(command);
    if words.len() == 0 {
        // Nothing to run: an empty or all-white-space command succeeds
        // with no effect.
        return Some(ExecResult { status: 0, stdout: String::new() });
    }
    proof {
        lemma_tokens_bounds(command@);
    }

    // Expand every argument (the verb itself is taken literally).
    let mut args: Vec<String> = Vec::new();
    let mut i: usize = 1;
    while i < words.len()
        invariant
            1 <= i <= words@.len(),
            views_of(words@) == spec_tokens(command@),
            args@.len() == i - 1,
            w0.is_prefix_of(wire.requests@),
            literal_args(command@) ==> wire.requests@ == w0 && wire.pending@ == p0,
            literal_args(command@) ==> forall|k: int|
                0 <= k < i - 1 ==> views_of(args@)[k] == spec_tokens(command@)[k + 1],
            simple_args(command@) ==> wire.requests@ == w0 && wire.pending@ == p0,
            simple_args(command@) ==> forall|k: int|
                0 <= k < i - 1 ==> views_of(args@)[k] == expand_named(
                    spec_parts(spec_tokens(command@)[k + 1]),
                    env@,
                ),
            pinned_args(command@) ==> wire.requests@ == w0 && wire.pending@ == p0,
            pinned_args(command@) ==> forall|k: int|
                0 <= k < i - 1 ==> views_of(args@)[k] == expand_pinned(
                    spec_parts(spec_tokens(command@)[k + 1]),
                    env@,
                ),
        decreases words@.len() - i,
    {
        proof {
            lemma_tokens_bounds(command@);
            lemma_sum_lens_elem(spec_tokens(command@), i as int);
            assert(words@[i as int]@ == spec_tokens(command@)[i as int]);
        }
        let ghost wa = wire.requests@;
        let ghost oargs = args@;
        match process_arg(words[i].as_str(), env, wire) {
            None => {
                proof {
                    lemma_prefix_trans(w0, wa, wire.requests@);
                    if literal_args(command@) {
                        assert(dollar_free(spec_tokens(command@)[i as int]));
                    }
                    if simple_args(command@) {
                        assert(simple_runs(spec_tokens(command@)[i as int]));
                    }
                    if pinned_args(command@) {
                        assert(pinned_runs(spec_tokens(command@)[i as int]));
                    }
                }
                return None;
            },
            Some(a) => {
                proof {
                    lemma_prefix_trans(w0, wa, wire.requests@);
                    if literal_args(command@) {
                        assert(dollar_free(spec_tokens(command@)[i as int]));
                    }
                    if simple_args(command@) {
                        assert(simple_runs(spec_tokens(command@)[i as int]));
                    }
                    if pinned_args(command@) {
                        assert(pinned_runs(spec_tokens(command@)[i as int]));
                    }
                }
                args.push(a);
                proof {
                    assert(views_of(args@) =~= views_of(oargs).push(a@));
                }
            },
        }
        i = i + 1;
    }

    proof {
        lemma_verb_literals();
        assert(words@[0]@ == spec_tokens(command@)[0]);
    }

    let mut output = Output::new(mode);
    let verb = &words[0];

    if str_eq(verb.as_str(), "h") || str_eq(verb.as_str(), "help") {
        let lines = help_lines();
        let mut k: usize = 0;
        proof {
            if plain_help(command@) && mode is ToConsole && p0.len() >= 8 {
                assert(wire.pending@ == p0.skip(0));
            }
        }
        while k < lines.len()
            invariant
                k <= lines@.len(),
                w0.is_prefix_of(wire.requests@),
                output.status == 0,
                output.mode == mode,
                plain_help(command@) && mode is ToConsole && p0.len() >= 8 ==> ({
                    &&& wire.requests@.len() == w0.len() + k
                    &&& (forall|j: int|
                        0 <= j < k ==> (#[trigger] wire.requests@[w0.len() + j]
                            matches Request::ConsolePrint(t) && t@ == views_of(lines@)[j]))
                    &&& wire.pending@ == p0.skip(k as int)
                    &&& output.stdout@.len() == 0
                }),
            decreases lines@.len() - k,
        {
            let ghost wb = wire.requests@;
            let ghost pb = wire.pending@;
            let ok = output.println(lines[k].as_str(), wire);
            proof {
                lemma_prefix_trans(w0, wb, wire.requests@);
                if plain_help(command@) && mode is ToConsole && p0.len() >= 8 {
                    assert(p0.skip(k as int).len() == p0.len() - k);
                    assert(pb.drop_first() =~= p0.skip(k as int + 1));
                    assert(forall|j: int|
                        0 <= j < k ==> #[trigger] wire.requests@[w0.len() + j] == wb[w0.len()
                            + j]);
                }
            }
            if !ok {
                return None;
            }
            k = k + 1;
        }
        proof {
            if plain_help(command@) && mode is ToConsole && p0.len() >= 8 {
                assert(views_of(lines@)[0] == "Commands:"@);
                assert(views_of(lines@)[1] == "  help"@);
                assert(views_of(lines@)[2] == "  fuzz <slug>"@);
                assert(views_of(lines@)[3] == "  judge <slug> <solution> <source-path>"@);
                assert(views_of(lines@)[4] == "  clear"@);
                assert(views_of(lines@)[5] == "  echo <message>"@);
                assert(views_of(lines@)[6] == "  cat <file-path>"@);
                assert(views_of(lines@)[7] == "  quit"@);
            }
        }
        return Some(output.result());
    }
    if str_eq(verb.as_str(), "f") || str_eq(verb.as_str(), "fuzz") {
        if args.len() != 1 {
            let ghost wb = wire.requests@;
            let ok = console_error(wire, "Usage: fuzz <slug>");
            proof {
                lemma_prefix_trans(w0, wb, wire.requests@);
            }
            if !ok {
                return None;
            }
            return Some(ExecResult { status: 1, stdout: String::new() });
        }
        let ghost wb = wire.requests@;
        let ok = console_print(wire, "Request sent...");
        proof {
            lemma_prefix_trans(w0, wb, wire.requests@);
        }
        if !ok {
            return None;
        }
        let slug = args[0].clone();
        proof {
            if plain_fuzz(command@) {
                assert(views_of(args@)[0] == spec_tokens(command@)[1]);
            }
        }
        let ghost wc = wire.requests@;
        proof {
            lemma_prefix_push(wc, Request::Fuzz { slug });
        }
        let rep = wire.ask(Request::Fuzz { slug });
        proof {
            lemma_prefix_trans(w0, wc, wire.requests@);
        }
        match rep {
            None => {
                return None;
            },
            Some(Reply::FuzzOutcome(out)) => {
                let text = match out {
                    Ok(Some(t)) => t,
                    Ok(None) => String::new(),
                    Err(e) => {
                        output.status = 1;
                        e
                    },
                };
                let ghost wd = wire.requests@;
                let ok2 = output.println(text.as_str(), wire);
                proof {
                    lemma_prefix_trans(w0, wd, wire.requests@);
                    if plain_fuzz(command@) && mode is ToConsole && p0.len() >= 3 && p0[1] is FuzzOutcome {
                        lemma_prefix_trans(wc, wd, wire.requests@);
                        lemma_prefix_index(wc, wire.requests@, w0.len() as int);
                        lemma_prefix_index(wd, wire.requests@, w0.len() as int + 1);
                        assert(p0.drop_first()[0] == p0[1]);
                    }
                }
                if !ok2 {
                    return None;
                }
                return Some(output.result());
            },
            Some(_) => {
                return Some(ExecResult { status: 1, stdout: String::new() });
            },
        }
    }
    if str_eq(verb.as_str(), "j") || str_eq(verb.as_str(), "judge") {
        if args.len() != 2 {
            let ghost wb = wire.requests@;
            let ok = console_error(wire, "Usage: judge <slug> <source-path>");
            proof {
                lemma_prefix_trans(w0, wb, wire.requests@);
            }
            if !ok {
                return None;
            }
            return Some(ExecResult { status: 1, stdout: String::new() });
        }
        let solution = match piped_input {
            Some(s) => s,
            None => {
                let ghost wb = wire.requests@;
                let ok = console_error(
                    wire,
                    "No solution was provided. Please pipe the solution into this command. e.g. `echo \"solution\" | judge <slug> <source-path>`",
                );
                proof {
                    lemma_prefix_trans(w0, wb, wire.requests@);
                }
                if !ok {
                    return None;
                }
                return Some(ExecResult { status: 1, stdout: String::new() });
            },
        };
        let ghost wb = wire.requests@;
        let ok = console_print(wire, "Request sent...");
        proof {
            lemma_prefix_trans(w0, wb, wire.requests@);
        }
        if !ok {
            return None;
        }
        let slug = args[0].clone();
        let source_path = args[1].clone();
        proof {
            if plain_judge(command@) {
                assert(views_of(args@)[0] == spec_tokens(command@)[1]);
                assert(views_of(args@)[1] == spec_tokens(command@)[2]);
            }
        }
        let ghost wc = wire.requests@;
        proof {
            lemma_prefix_push(wc, Request::Judge { slug, solution, source_path });
        }
        let rep = wire.ask(Request::Judge { slug, solution, source_path });
        proof {
            lemma_prefix_trans(w0, wc, wire.requests@);
        }
        match rep {
            None => {
                return None;
            },
            Some(Reply::JudgeOutcome(out)) => {
                let text = match out {
                    Ok(t) => t,
                    Err(e) => {
                        output.status = 1;
                        e
                    },
                };
                let ghost wd = wire.requests@;
                let ok2 = output.println(text.as_str(), wire);
                proof {
                    lemma_prefix_trans(w0, wd, wire.requests@);
                    if plain_judge(command@) && gpiped is Some && mode is ToConsole
                        && p0.len() >= 3 && p0[1] is JudgeOutcome {
                        lemma_prefix_trans(wc, wd, wire.requests@);
                        lemma_prefix_index(wc, wire.requests@, w0.len() as int);
                        lemma_prefix_index(wd, wire.requests@, w0.len() as int + 1);
                        assert(p0.drop_first()[0] == p0[1]);
                    }
                }
                if !ok2 {
                    return None;
                }
                return Some(output.result());
            },
            Some(_) => {
                return Some(ExecResult { status: 1, stdout: String::new() });
            },
        }
    }
    if str_eq(verb.as_str(), "clear") {
        proof {
            lemma_prefix_push(wire.requests@, Request::ConsoleClear);
        }
        let rep = wire.ask(Request::ConsoleClear);
        if rep.is_none() {
            return None;
        }
        return Some(ExecResult { status: 0, stdout: String::new() });
    }
    if str_eq(verb.as_str(), "echo") {
        let text = join_args(&args);
        proof {
            if plain_echo(command@) {
                assert(views_of(args@) =~= spec_tokens(command@).skip(1));
            }
            if plain_echo_env(command@) {
                assert(views_of(args@) =~= spec_tokens(command@).skip(1).map_values(
                    |t: Seq<char>| expand_named(spec_parts(t), env@),
                ));
            }
            if plain_echo_full(command@) {
                assert(views_of(args@) =~= spec_tokens(command@).skip(1).map_values(
                    |t: Seq<char>| expand_pinned(spec_parts(t), env@),
                ));
            }
        }
        let ok = output.println(text.as_str(), wire);
        if !ok {
            return None;
        }
        return Some(output.result());
    }
    if str_eq(verb.as_str(), "cat") {
        if args.len() != 1 {
            let ghost wb = wire.requests@;
            let ok = console_error(wire, "Usage: cat <file-path>");
            proof {
                lemma_prefix_trans(w0, wb, wire.requests@);
            }
            if !ok {
                return None;
            }
            return Some(ExecResult { status: 1, stdout: String::new() });
        }
        let path = args[0].clone();
        proof {
            if plain_cat(command@) {
                assert(views_of(args@)[0] == spec_tokens(command@)[1]);
            }
        }
        let ghost wb = wire.requests@;
        proof {
            lemma_prefix_push(wb, Request::ReadFile { path });
        }
        let rep = wire.ask(Request::ReadFile { path });
        proof {
            lemma_prefix_trans(w0, wb, wire.requests@);
        }
        match rep {
            None => {
                return None;
            },
            Some(Reply::FileContent(out)) => {
                let text = match out {
                    Ok(t) => t,
                    Err(e) => {
                        output.status = 1;
                        e
                    },
                };
                let ghost wd = wire.requests@;
                let ok2 = output.println(text.as_str(), wire);
                proof {
                    lemma_prefix_trans(w0, wd, wire.requests@);
                    if plain_cat(command@) && mode is ToConsole && p0.len() >= 2 && p0[0] is FileContent {
                        lemma_prefix_index(wd, wire.requests@, w0.len() as int);
                    }
                }
                if !ok2 {
                    return None;
                }
                return Some(output.result());
            },
            Some(_) => {
                return Some(ExecResult { status: 1, stdout: String::new() });
            },
        }
    }
    if str_eq(verb.as_str(), "q") || str_eq(verb.as_str(), "quit") || str_eq(
        verb.as_str(),
        "exit",
    ) {
        proof {
            lemma_prefix_push(wire.requests@, Request::Quit);
        }
        let rep = wire.ask(Request::Quit);
        if rep.is_none() {
            return None;
        }
        return Some(ExecResult { status: 0, stdout: String::new() });
    }

    // External program.
    let program = verb.clone();
    proof {
        if plain_external(command@) {
            assert(views_of(args@) =~= spec_tokens(command@).skip(1));
        }
    }
    let ghost wb = wire.requests@;
    proof {
        lemma_prefix_push(wb, Request::Spawn { program, args, stdin: piped_input });
    }
    let rep = wire.ask(Request::Spawn { program, args, stdin: piped_input });
    proof {
        lemma_prefix_trans(w0, wb, wire.requests@);
    }
    match rep {
        None => None,
        Some(Reply::SpawnOutcome(out)) => {
            let text = match out {
                Ok((code, t)) => {
                    output.status = code;
                    t
                },
                Err(e) => {
                    output.status = 1;
                    e
                },
            };
            let ghost wd = wire.requests@;
            let ok2 = output.println(text.as_str(), wire);
            proof {
                lemma_prefix_trans(w0, wd, wire.requests@);
                if plain_external(command@) && mode is ToConsole && p0.len() >= 2 && p0[0] is SpawnOutcome {
                    lemma_prefix_index(wd, wire.requests@, w0.len() as int);
                }
            }
            if !ok2 {
                return None;
            }
            Some(output.result())
        },
        Some(_) => Some(ExecResult { status: 1, stdout: String::new() }),
    }
}

/// The usage summary that `help` prints, line by line.
fn help_lines() -> (r: Vec<String>)
    ensures
        r@.len() == 8,
        r@[0]@ == "Commands:"@,
        r@[1]@ == "  help"@,
        r@[2]@ == "  fuzz <slug>"@,
        r@[3]@ == "  judge <slug> <solution> <source-path>"@,
        r@[4]@ == "  clear"@,
        r@[5]@ == "  echo <message>"@,
        r@[6]@ == "  cat <file-path>"@,
        r@[7]@ == "  quit"@,
{
    let mut v: Vec<String> = Vec::new();
    v.push("Commands:".to_owned());
    v.push("  help".to_owned());
    v.push("  fuzz <slug>".to_owned());
    v.push("  judge <slug> <solution> <source-path>".to_owned());
    v.push("  clear".to_owned());
    v.push("  echo <message>".to_owned());
    v.push("  cat <file-path>".to_owned());
    v.push("  quit".to_owned());
    v
}

/// Expands one raw argument: every `$name`, `$(...)` and bare `$` run
/// is replaced, and literal runs are kept.  A `$`-free argument comes
/// back unchanged with no request made.
#[verifier::loop_isolation(false)]
pub fn process_arg(arg: &str, env: &Env, wire: &mut Wire) -> (r: Option<String>)
    ensures
        old(wire).requests@.is_prefix_of(final(wire).requests@),
        r is None ==> final(wire).pending@.len() == 0,
        dollar_free(arg@) ==> ({
            &&& r is Some
            &&& r->0@ == arg@
            &&& final(wire).requests@ == old(wire).requests@
            &&& final(wire).pending@ == old(wire).pending@
        }),
        simple_runs(arg@) ==> ({
            &&& r is Some
            &&& r->0@ == expand_named(spec_parts(arg@), env@)
            &&& final(wire).requests@ == old(wire).requests@
            &&& final(wire).pending@ == old(wire).pending@
        }),
        pinned_runs(arg@) ==> ({
            &&& r is Some
            &&& r->0@ == expand_pinned(spec_parts(arg@), env@)
            &&& final(wire).requests@ == old(wire).requests@
            &&& final(wire).pending@ == old(wire).pending@
        }),
    decreases arg@.len(), 1int,
{
    let ghost w0 = wire.requests@;
    let ghost p0 = wire.pending@;
    proof {
        lemma_prefix_refl(w0);
    }
    let parts = split_out_variables(arg);
    proof {
        lemma_parts_concat(arg@);
        if dollar_free(arg@) {
            lemma_no_dollar_parts(arg@);
        }
    }
    let mut out = String::new();
    let mut i: usize = 0;
    while i < parts.len()
        invariant
            i <= parts@.len(),
            views_of(parts@) == spec_parts(arg@),
            w0.is_prefix_of(wire.requests@),
            dollar_free(arg@) ==> wire.requests@ == w0 && wire.pending@ == p0 && out@
                == crate::vars::concat_all(spec_parts(arg@).subrange(0, i as int)),
            simple_runs(arg@) ==> wire.requests@ == w0 && wire.pending@ == p0 && out@
                == expand_named(spec_parts(arg@).subrange(0, i as int), env@),
            pinned_runs(arg@) ==> wire.requests@ == w0 && wire.pending@ == p0 && out@
                == expand_pinned(spec_parts(arg@).subrange(0, i as int), env@),
        decreases parts@.len() - i,
    {
        proof {
            assert(parts@[i as int]@ == spec_parts(arg@)[i as int]);
            lemma_part_len(arg@, i as int);
            assert(spec_parts(arg@).subrange(0, i as int + 1) =~= spec_parts(arg@).subrange(
                0,
                i as int,
            ).push(spec_parts(arg@)[i as int]));
            crate::vars::lemma_concat_push(
                spec_parts(arg@).subrange(0, i as int),
                spec_parts(arg@)[i as int],
            );
            lemma_expand_named_push(
                spec_parts(arg@).subrange(0, i as int),
                spec_parts(arg@)[i as int],
                env@,
            );
            lemma_expand_pinned_push(
                spec_parts(arg@).subrange(0, i as int),
                spec_parts(arg@)[i as int],
                env@,
            );
        }
        let part = &parts[i];
        let starts_dollar = if part.as_str().unicode_len() > 0 {
            let c0 = part.as_str().get_char(0);
            c0 == '$'
        } else {
            false
        };
        if starts_dollar {
            proof {
                if dollar_free(arg@) {
                    crate::vars::lemma_no_dollar_parts(arg@);
                    assert(false);
                }
                if simple_runs(arg@) {
                    assert(dollar_free(spec_parts(arg@)[i as int]) || named_var(
                        spec_parts(arg@)[i as int],
                    ));
                    assert(named_var(spec_parts(arg@)[i as int]));
                }
                if pinned_runs(arg@) {
                    let p = spec_parts(arg@)[i as int];
                    assert(run_pinned(p));
                    assert(!dollar_free(p));
                    if p.len() == 1 {
                        assert(p =~= seq!['$']);
                    }
                }
            }
            let ghost wa = wire.requests@;
            match handle_variable(part.as_str(), env, wire) {
                None => {
                    proof {
                        lemma_prefix_trans(w0, wa, wire.requests@);
                    }
                    return None;
                },
                Some(v) => {
                    proof {
                        lemma_prefix_trans(w0, wa, wire.requests@);
                    }
                    out.append(v.as_str());
                },
            }
        } else {
            out.append(part.as_str());
        }
        i = i + 1;
    }
    proof {
        if dollar_free(arg@) || simple_runs(arg@) || pinned_runs(arg@) {
            assert(spec_parts(arg@).subrange(0, parts@.len() as int) =~= spec_parts(arg@));
        }
    }
    Some(out)
}

/// Resolves one variable run (a run starting with `$`).
///
/// `$(...)` is a command substitution: the enclosed text runs through
/// the whole interpreter with an accumulate-mode sink and no piped
/// input, and its captured output replaces the run, less the one
/// trailing line separator the sink appended — so `$(echo hi)` stands
/// for `hi`, and substitutions nest without piling up separators.  A
/// named variable
/// resolves first against the selected-problem pseudo-variables (`s`,
/// `selected`), then against the environment; an unresolved name yields
/// the empty string.  A bare `$` yields itself.
fn handle_variable(part: &str, env: &Env, wire: &mut Wire) -> (r: Option<String>)
    requires
        part@.len() > 0,
        part@[0] == '$',
    ensures
        old(wire).requests@.is_prefix_of(final(wire).requests@),
        r is None ==> final(wire).pending@.len() == 0,
        named_var(part@) ==> ({
            &&& r is Some
            &&& r->0@ == crate::env::env_value(env@, part@.skip(1))
            &&& final(wire).requests@ == old(wire).requests@
            &&& final(wire).pending@ == old(wire).pending@
        }),
        part@.len() == 1 ==> ({
            &&& r is Some
            &&& r->0@ == "$"@
            &&& final(wire).requests@ == old(wire).requests@
            &&& final(wire).pending@ == old(wire).pending@
        }),
        echo_subst_run(part@) ==> ({
            &&& r is Some
            &&& r->0@ == echo_text_env(part@.subrange(2, part@.len() - 1), env@)
            &&& final(wire).requests@ == old(wire).requests@
            &&& final(wire).pending@ == old(wire).pending@
        }),
    decreases part@.len(), 0int,
{
    let ghost w0 = wire.requests@;
    proof {
        lemma_prefix_refl(w0);
    }
    let pc = crate::chars::str_chars(part);
    // Strip the leading dollar signs, as trimming them does.
    let mut j: usize = 0;
    while j < pc.len() && pc[j] == '$'
        invariant
            j <= pc@.len(),
            pc@ == part@,
            forall|k: int| 0 <= k < j ==> pc@[k] == '$',
        decreases pc@.len() - j,
    {
        j = j + 1;
    }
    proof {
        if named_var(part@) {
            assert(j == 1);
        }
        if echo_subst_run(part@) {
            assert(j == 1);
        }
    }
    if j >= pc.len() {
        // The run is dollar signs alone: it stands for a literal `$`.
        return Some("$".to_owned());
    }
    if pc[j] == '(' && pc[pc.len() - 1] == ')' && j + 1 <= pc.len() - 1 {
        // Command substitution.
        proof {
            assert(!named_var(part@));
        }
        let inner = crate::chars::sub_chars(&pc, j + 1, pc.len() - 1);
        let inner_s = crate::chars::chars_string(&inner);
        proof {
            assert(pc@[0] == '$');
            assert(j >= 1);
            assert(inner_s@.len() < part@.len());
        }
        let subbed = exec(inner_s.as_str(), OutputMode::Piped, None, env, wire);
        proof {
            if echo_subst_run(part@) {
                assert(inner_s@ == part@.subrange(2, part@.len() - 1));
                assert(plain_echo_env(inner_s@));
            }
        }
        match subbed {
            None => {
                return None;
            },
            Some(res) => {
                let mut text = res.stdout;
                let tc = crate::chars::str_chars(text.as_str());
                if tc.len() > 0 && tc[tc.len() - 1] == '\n' {
                    crate::chars::pop_char(&mut text);
                    proof {
                        if echo_subst_run(part@) {
                            let et = echo_text_env(part@.subrange(2, part@.len() - 1), env@);
                            assert((et + seq!['\n']).drop_last() =~= et);
                        }
                    }
                }
                return Some(text);
            },
        }
    }
    let name_chars = crate::chars::sub_chars(&pc, j, pc.len());
    let name = crate::chars::chars_string(&name_chars);
    proof {
        if named_var(part@) {
            assert(name@ =~= part@.skip(1));
        }
    }
    if str_eq(name.as_str(), "s") || str_eq(name.as_str(), "selected") {
        proof {
            lemma_prefix_push(wire.requests@, Request::SelectedSlug);
        }
        let rep = wire.ask(Request::SelectedSlug);
        match rep {
            None => {
                return None;
            },
            Some(Reply::Selected(Some(slug))) => {
                return Some(slug);
            },
            Some(_) => {
                return Some(String::new());
            },
        }
    }
    match env.get(name.as_str()) {
        Some(v) => Some(v),
        None => Some(String::new()),
    }
}

/// The built-in verbs are pairwise distinct, so the dispatch order
/// never confuses two of them.
proof fn lemma_verb_literals()
    ensures
        "h"@ != "help"@,
        "h"@ != "f"@,
        "h"@ != "fuzz"@,
        "h"@ != "j"@,
        "h"@ != "judge"@,
        "h"@ != "clear"@,
        "h"@ != "echo"@,
        "h"@ != "cat"@,
        "h"@ != "q"@,
        "h"@ != "quit"@,
        "h"@ != "exit"@,
        "help"@ != "f"@,
        "help"@ != "fuzz"@,
        "help"@ != "j"@,
        "help"@ != "judge"@,
        "help"@ != "clear"@,
        "help"@ != "echo"@,
        "help"@ != "cat"@,
        "help"@ != "q"@,
        "help"@ != "quit"@,
        "help"@ != "exit"@,
        "f"@ != "fuzz"@,
        "f"@ != "j"@,
        "f"@ != "judge"@,
        "f"@ != "clear"@,
        "f"@ != "echo"@,
        "f"@ != "cat"@,
        "f"@ != "q"@,
        "f"@ != "quit"@,
        "f"@ != "exit"@,
        "fuzz"@ != "j"@,
        "fuzz"@ != "judge"@,
        "fuzz"@ != "clear"@,
        "fuzz"@ != "echo"@,
        "fuzz"@ != "cat"@,
        "fuzz"@ != "q"@,
        "fuzz"@ != "quit"@,
        "fuzz"@ != "exit"@,
        "j"@ != "judge"@,
        "j"@ != "clear"@,
        "j"@ != "echo"@,
        "j"@ != "cat"@,
        "j"@ != "q"@,
        "j"@ != "quit"@,
        "j"@ != "exit"@,
        "judge"@ != "clear"@,
        "judge"@ != "echo"@,
        "judge"@ != "cat"@,
        "judge"@ != "q"@,
        "judge"@ != "quit"@,
        "judge"@ != "exit"@,
        "clear"@ != "echo"@,
        "clear"@ != "cat"@,
        "clear"@ != "q"@,
        "clear"@ != "quit"@,
        "clear"@ != "exit"@,
        "echo"@ != "cat"@,
        "echo"@ != "q"@,
        "echo"@ != "quit"@,
        "echo"@ != "exit"@,
        "cat"@ != "q"@,
        "cat"@ != "quit"@,
        "cat"@ != "exit"@,
        "q"@ != "quit"@,
        "q"@ != "exit"@,
        "quit"@ != "exit"@,
{
    reveal_strlit("h");
    reveal_strlit("help");
    reveal_strlit("f");
    reveal_strlit("fuzz");
    reveal_strlit("j");
    reveal_strlit("judge");
    reveal_strlit("clear");
    reveal_strlit("echo");
    reveal_strlit("cat");
    reveal_strlit("q");
    reveal_strlit("quit");
    reveal_strlit("exit");
    assert("h"@.len() == 1);
    assert("help"@.len() == 4);
    assert("f"@.len() == 1);
    assert("fuzz"@.len() == 4);
    assert("j"@.len() == 1);
    assert("judge"@.len() == 5);
    assert("clear"@.len() == 5);
    assert("echo"@.len() == 4);
    assert("cat"@.len() == 3);
    assert("q"@.len() == 1);
    assert("quit"@.len() == 4);
    assert("exit"@.len() == 4);
    assert("h"@[0] == 'h');
    assert("help"@[0] == 'h');
    assert("f"@[0] == 'f');
    assert("fuzz"@[0] == 'f');
    assert("j"@[0] == 'j');
    assert("judge"@[0] == 'j');
    assert("clear"@[0] == 'c');
    assert("echo"@[0] == 'e');
    assert("cat"@[0] == 'c');
    assert("q"@[0] == 'q');
    assert("quit"@[0] == 'q');
    assert("exit"@[0] == 'e');
    assert("echo"@[1] == 'c');
    assert("exit"@[1] == 'x');
}

} // verus!
