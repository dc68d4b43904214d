//! Interpreter scenarios, driven through a simulated host: console
//! requests build a `ConsoleState`, file requests use an in-memory
//! file table, and spawn requests fail as an unknown program would.

use std::collections::HashMap;

use fj_tui::{exec, ConsoleState, Env, ExecResult, OutputMode, Reply, Request, Wire};

struct World {
    files: HashMap<String, String>,
    judged: Vec<(String, String, String)>,
    fuzzed: Vec<String>,
}

impl World {
    fn new() -> World {
        World { files: HashMap::new(), judged: Vec::new(), fuzzed: Vec::new() }
    }

    fn answer(&mut self, req: &Request) -> Reply {
        match req {
            Request::ConsolePrint(_) => Reply::Ack,
            Request::ConsoleError(_) => Reply::Ack,
            Request::ConsoleClear => Reply::Ack,
            Request::Quit => Reply::Ack,
            Request::Fuzz { slug } => {
                self.fuzzed.push(slug.clone());
                Reply::FuzzOutcome(Ok(Some(format!("fuzzed {}", slug))))
            }
            Request::Judge { slug, solution, source_path } => {
                self.judged.push((slug.clone(), solution.clone(), source_path.clone()));
                Reply::JudgeOutcome(Ok(String::from("Correct!")))
            }
            Request::ReadFile { path } => Reply::FileContent(match self.files.get(path) {
                Some(c) => Ok(c.clone()),
                None => Err(format!("No such file: {}", path)),
            }),
            Request::WriteFile { path, content } => {
                self.files.insert(path.clone(), content.clone());
                Reply::WriteOutcome(Ok(()))
            }
            Request::Spawn { program, .. } => {
                Reply::SpawnOutcome(Err(format!("No such file or directory: {}", program)))
            }
            Request::SelectedSlug => Reply::Selected(Some(String::from("selected-slug"))),
        }
    }

    /// Runs a command to completion, replaying replies as the
    /// interpreter asks for them.
    fn run(&mut self, cmd: &str, env: &Env, piped: Option<&str>) -> (ExecResult, Vec<Request>) {
        let mut known: Vec<Request> = Vec::new();
        let mut rounds = 0;
        loop {
            rounds += 1;
            assert!(rounds < 10_000, "interpreter did not settle");
            // Each round replays the whole exchange: the effect logs
            // restart so the final round records each effect once.
            self.judged.clear();
            self.fuzzed.clear();
            let mut replies: Vec<Reply> = Vec::new();
            for rq in &known {
                replies.push(self.answer(rq));
            }
            let mut wire = Wire::new(replies);
            match exec(cmd, OutputMode::ToConsole, piped.map(|s| s.to_string()), env, &mut wire) {
                Some(res) => return (res, wire.requests),
                None => {
                    known = wire.requests;
                }
            }
        }
    }
}

/// Applies the console requests to a fresh console and joins its
/// messages with newlines, as the visible log would show them.
fn console_text(reqs: &[Request]) -> String {
    let mut console = ConsoleState::new();
    for r in reqs {
        match r {
            Request::ConsolePrint(t) => console.println(t.as_str()),
            Request::ConsoleError(t) => console.eprintln(t.as_str()),
            Request::ConsoleClear => console.clear(),
            _ => {}
        }
    }
    let mut out = String::new();
    for (i, m) in console.messages.iter().enumerate() {
        if i > 0 {
            out.push('\n');
        }
        out.push_str(m.as_str());
    }
    out
}

fn run_console(cmd: &str, env: &Env) -> (i32, String) {
    let mut w = World::new();
    let (res, reqs) = w.run(cmd, env, None);
    (res.status, console_text(&reqs))
}

#[test]
fn echo_literal() {
    let env = Env::new();
    let (status, out) = run_console("echo hello", &env);
    assert_eq!(status, 0);
    assert_eq!(out, "hello");
    let (status, out) = run_console("echo hello world", &env);
    assert_eq!(status, 0);
    assert_eq!(out, "hello world");
}

#[test]
fn echo_no_args() {
    let env = Env::new();
    let (status, out) = run_console("echo", &env);
    assert_eq!(status, 0);
    assert_eq!(out, "");
}

#[test]
fn sequencing_runs_both() {
    let env = Env::new();
    let (status, out) = run_console("echo hello ; echo world", &env);
    assert_eq!(status, 0);
    assert_eq!(out, "hello\nworld");
    let (status, out) = run_console("echo a ; echo b ; echo c", &env);
    assert_eq!(status, 0);
    assert_eq!(out, "a\nb\nc");
}

#[test]
fn sequencing_does_not_short_circuit() {
    let env = Env::new();
    // The left half fails; the right half still runs, and the pair
    // reports the right half's status.
    let (status, out) = run_console("cat ; echo after", &env);
    assert_eq!(status, 0);
    assert_eq!(out, "ERROR: Usage: cat <file-path>\nafter");
}

#[test]
fn conditional_and_stops_on_failure() {
    let env = Env::new();
    let (status, out) = run_console("cat && echo hello", &env);
    assert_eq!(status, 1);
    assert_eq!(out, "ERROR: Usage: cat <file-path>");
}

#[test]
fn conditional_and_runs_on_success() {
    let env = Env::new();
    let (status, out) = run_console("echo hello && echo hello", &env);
    assert_eq!(status, 0);
    assert_eq!(out, "hello\nhello");
}

#[test]
fn concurrent_pair_runs_both() {
    let env = Env::new();
    let (status, out) = run_console("echo one & echo two", &env);
    assert_eq!(status, 0);
    assert_eq!(out, "one\ntwo");
}

#[test]
fn variable_substitution() {
    let mut env = Env::new();
    env.insert(String::from("a"), String::from("Some Value"));
    let (status, out) = run_console("echo a$a.a", &env);
    assert_eq!(status, 0);
    assert_eq!(out, "aSome Value.a");
}

#[test]
fn unset_variable_is_empty() {
    let env = Env::new();
    let (status, out) = run_console("echo x$missing.x", &env);
    assert_eq!(status, 0);
    assert_eq!(out, "x.x");
}

#[test]
fn bare_dollar_is_literal() {
    let env = Env::new();
    let (status, out) = run_console("echo a$ b", &env);
    assert_eq!(status, 0);
    assert_eq!(out, "a$ b");
}

#[test]
fn nested_command_substitution() {
    let env = Env::new();
    let (status, out) = run_console("echo $(echo $(echo hi) hi)", &env);
    assert_eq!(status, 0);
    assert_eq!(out, "hi hi");
}

#[test]
fn selected_pseudo_variable() {
    let env = Env::new();
    let (status, out) = run_console("echo $s", &env);
    assert_eq!(status, 0);
    assert_eq!(out, "selected-slug");
    let (status, out) = run_console("echo $selected", &env);
    assert_eq!(status, 0);
    assert_eq!(out, "selected-slug");
}

#[test]
fn quoting_suppresses_operators() {
    let env = Env::new();
    let (status, out) = run_console("echo \" | && > < ; f\"", &env);
    assert_eq!(status, 0);
    assert_eq!(out, " | && > < ; f");
}

#[test]
fn quoting_keeps_spacing() {
    let env = Env::new();
    let (status, out) = run_console("echo \"a  b\"", &env);
    assert_eq!(status, 0);
    assert_eq!(out, "a  b");
}

#[test]
fn redirect_round_trip() {
    let mut w = World::new();
    let env = Env::new();
    let (res, reqs) = w.run("echo 2 > 1", &env, None);
    assert_eq!(res.status, 0);
    assert_eq!(console_text(&reqs), "");
    assert_eq!(w.files.get("1").map(|s| s.as_str()), Some("2\n"));
    let (res, reqs) = w.run("cat 1", &env, None);
    assert_eq!(res.status, 0);
    assert_eq!(console_text(&reqs), "2\n");
}

#[test]
fn redirect_target_is_expanded() {
    let mut w = World::new();
    let mut env = Env::new();
    env.insert(String::from("f"), String::from("dest"));
    let (res, _) = w.run("echo data > $f", &env, None);
    assert_eq!(res.status, 0);
    assert_eq!(w.files.get("dest").map(|s| s.as_str()), Some("data\n"));
}

#[test]
fn unknown_command_fails() {
    let env = Env::new();
    let (status, out) = run_console("ahjsdkjashldkjashdashdkj", &env);
    assert_eq!(status, 1);
    assert_eq!(out, "No such file or directory: ahjsdkjashldkjashdashdkj");
}

#[test]
fn judge_without_piped_input_never_reaches_service() {
    let mut w = World::new();
    let env = Env::new();
    let (res, reqs) = w.run("judge some-slug some-path", &env, None);
    assert_eq!(res.status, 1);
    assert!(console_text(&reqs).starts_with("ERROR: No solution was provided."));
    assert!(w.judged.is_empty());
    assert!(reqs.iter().all(|r| !matches!(r, Request::Judge { .. })));
}

#[test]
fn judge_usage_error() {
    let env = Env::new();
    let (status, out) = run_console("judge onlyslug", &env);
    assert_eq!(status, 1);
    assert_eq!(out, "ERROR: Usage: judge <slug> <source-path>");
}

#[test]
fn pipe_feeds_judge() {
    let mut w = World::new();
    let env = Env::new();
    let (res, reqs) = w.run("echo answer | judge slug path", &env, None);
    assert_eq!(res.status, 0);
    assert_eq!(w.judged.len(), 1);
    assert_eq!(w.judged[0].0, "slug");
    assert_eq!(w.judged[0].1, "answer\n");
    assert_eq!(w.judged[0].2, "path");
    assert_eq!(console_text(&reqs), "Request sent...\nCorrect!");
}

#[test]
fn fuzz_requests_and_prints() {
    let mut w = World::new();
    let env = Env::new();
    let (res, reqs) = w.run("fuzz my-problem", &env, None);
    assert_eq!(res.status, 0);
    assert_eq!(w.fuzzed, vec![String::from("my-problem")]);
    assert_eq!(console_text(&reqs), "Request sent...\nfuzzed my-problem");
}

#[test]
fn fuzz_usage_error() {
    let env = Env::new();
    let (status, out) = run_console("fuzz a a  a a a  aa a a", &env);
    assert_eq!(status, 1);
    assert_eq!(out, "ERROR: Usage: fuzz <slug>");
}

#[test]
fn cat_missing_file_fails() {
    let env = Env::new();
    let (status, out) = run_console("cat non-existent-file", &env);
    assert_eq!(status, 1);
    assert_eq!(out, "No such file: non-existent-file");
}

#[test]
fn clear_clears_console() {
    let env = Env::new();
    let (status, out) = run_console("echo before ; clear ; echo after", &env);
    assert_eq!(status, 0);
    assert_eq!(out, "after");
}

#[test]
fn quit_asks_host_to_stop() {
    let mut w = World::new();
    let env = Env::new();
    let (res, reqs) = w.run("quit", &env, None);
    assert_eq!(res.status, 0);
    assert!(reqs.iter().any(|r| matches!(r, Request::Quit)));
}

#[test]
fn help_writes_usage_summary() {
    let env = Env::new();
    let (status, out) = run_console("help", &env);
    assert_eq!(status, 0);
    assert!(out.starts_with("Commands:"));
    assert!(out.contains("  fuzz <slug>"));
    assert!(out.contains("  quit"));
}

#[test]
fn empty_command_is_a_quiet_success() {
    let env = Env::new();
    let (status, out) = run_console("   ", &env);
    assert_eq!(status, 0);
    assert_eq!(out, "");
}

#[test]
fn redirect_write_failure_reports() {
    let env = Env::new();
    let mut wire = Wire::new(vec![
        Reply::WriteOutcome(Err(String::from("disk full"))),
        Reply::Ack,
    ]);
    let res = exec("echo x > f", OutputMode::ToConsole, None, &env, &mut wire);
    let res = res.expect("both replies were queued");
    assert_eq!(res.status, 1);
    assert!(matches!(&wire.requests[0], Request::WriteFile { .. }));
    assert!(matches!(&wire.requests[1], Request::ConsolePrint(t) if t == "disk full"));
}

#[test]
fn fuzz_service_error_reports_status_one() {
    let env = Env::new();
    let mut wire = Wire::new(vec![
        Reply::Ack,
        Reply::FuzzOutcome(Err(String::from("service down"))),
        Reply::Ack,
    ]);
    let res = exec("fuzz slug", OutputMode::ToConsole, None, &env, &mut wire);
    let res = res.expect("all replies were queued");
    assert_eq!(res.status, 1);
    assert!(matches!(&wire.requests[2], Request::ConsolePrint(t) if t == "service down"));
}

#[test]
fn mismatched_reply_counts_as_failure() {
    let env = Env::new();
    let mut wire = Wire::new(vec![Reply::Ack]);
    let res = exec("cat f", OutputMode::ToConsole, None, &env, &mut wire);
    let res = res.expect("the reply was queued");
    assert_eq!(res.status, 1);
    assert_eq!(wire.requests.len(), 1);
}

#[test]
fn missing_reply_suspends() {
    let env = Env::new();
    let mut wire = Wire::new(Vec::new());
    let res = exec("cat f", OutputMode::ToConsole, None, &env, &mut wire);
    assert!(res.is_none());
    assert!(matches!(&wire.requests[0], Request::ReadFile { path } if path == "f"));
}

#[test]
fn escaped_quote_is_literal() {
    let env = Env::new();
    let (status, out) = run_console("echo \\\"hi\\\"", &env);
    assert_eq!(status, 0);
    assert_eq!(out, "\"hi\"");
}
