//! Unit tests for the tokenizer, the splitter, the expander's run
//! splitting, the environment, and the state helpers.

use fj_tui::clock::Clock;
use fj_tui::key::{handle_press, handle_typing, parse_modifier, Key};
use fj_tui::scroll::Scroll;
use fj_tui::{
    is_var_name_char, number_of_lines_when_broken, pad_end, split_by_oper, split_out_variables,
    tokenize, AppState, ConsoleState, Env,
};

#[test]
fn tokenize_splits_on_whitespace() {
    assert_eq!(tokenize("echo hello world"), vec!["echo", "hello", "world"]);
    assert_eq!(tokenize("  a \t b  "), vec!["a", "b"]);
}

#[test]
fn tokenize_whitespace_only_is_empty() {
    assert_eq!(tokenize("").len(), 0);
    assert_eq!(tokenize("   \t \n  ").len(), 0);
}

#[test]
fn tokenize_quotes_group_and_drop() {
    assert_eq!(tokenize("echo \"a b\" c"), vec!["echo", "a b", "c"]);
    assert_eq!(tokenize("\" | && > < ; f\""), vec![" | && > < ; f"]);
}

#[test]
fn tokenize_escape_takes_next_literally() {
    assert_eq!(tokenize("a\\\"b"), vec!["a\"b"]);
    assert_eq!(tokenize("a\\\\b"), vec!["a\\b"]);
}

#[test]
fn tokenize_escaped_space_still_separates() {
    // Escaping protects quotes and backslashes, not white space.
    assert_eq!(tokenize("a\\ b"), vec!["a", "b"]);
}

#[test]
fn tokenize_parens_group() {
    assert_eq!(tokenize("echo $(echo a b) c"), vec!["echo", "$(echo a b)", "c"]);
}

#[test]
fn split_finds_top_level_operator() {
    assert_eq!(
        split_by_oper("echo a ; echo b", ";", false),
        Some((String::from("echo a"), String::from("echo b")))
    );
    assert_eq!(split_by_oper("echo a b", ";", false), None);
}

#[test]
fn split_leftmost_and_rightmost() {
    assert_eq!(
        split_by_oper("a ; b ; c", ";", false),
        Some((String::from("a"), String::from("b ; c")))
    );
    assert_eq!(
        split_by_oper("a | b | c", "|", true),
        Some((String::from("a | b"), String::from("c")))
    );
}

#[test]
fn split_ignores_quoted_operators() {
    assert_eq!(split_by_oper("echo \"a ; b\"", ";", false), None);
    assert_eq!(split_by_oper("echo \" > f\"", ">", true), None);
    assert_eq!(split_by_oper("echo $(a ; b)", ";", false), None);
}

#[test]
fn split_needs_whole_word() {
    // The operator glued to a word is not a control operator.
    assert_eq!(split_by_oper("echo 2>1", ">", true), None);
    assert_eq!(split_by_oper("a;b", ";", false), None);
}

#[test]
fn split_out_variables_runs() {
    assert_eq!(split_out_variables("a$a.a"), vec!["a", "$a", ".a"]);
    assert_eq!(split_out_variables("x$(echo hi)y"), vec!["x", "$(echo hi)", "y"]);
    assert_eq!(split_out_variables("plain"), vec!["plain"]);
    assert_eq!(split_out_variables("$a$b"), vec!["$a", "$b"]);
}

#[test]
fn var_name_chars() {
    assert!(is_var_name_char('a'));
    assert!(is_var_name_char('Z'));
    assert!(is_var_name_char('0'));
    assert!(is_var_name_char('_'));
    assert!(!is_var_name_char('.'));
    assert!(!is_var_name_char('$'));
    assert!(!is_var_name_char('('));
    assert!(!is_var_name_char(' '));
}

#[test]
fn env_lookup() {
    let mut env = Env::new();
    assert_eq!(env.get("a"), None);
    env.insert(String::from("a"), String::from("1"));
    env.insert(String::from("b"), String::from("2"));
    assert_eq!(env.get("a"), Some(String::from("1")));
    assert_eq!(env.get("b"), Some(String::from("2")));
    env.insert(String::from("a"), String::from("3"));
    assert_eq!(env.get("a"), Some(String::from("3")));
    assert_eq!(env.get("missing"), None);
}

#[test]
fn pad_end_pads_with_spaces() {
    assert_eq!(pad_end("ab", 5), "ab   ");
    assert_eq!(pad_end("abcde", 5), "abcde");
    assert_eq!(pad_end("", 3), "   ");
}

#[test]
fn line_count_fits_on_one_line() {
    assert_eq!(number_of_lines_when_broken("hello", 10), 1);
    assert_eq!(number_of_lines_when_broken("", 4), 1);
}

#[test]
fn line_count_splits_long_runs() {
    // A single long word is split at the width.
    assert_eq!(number_of_lines_when_broken("abcdef", 2), 3);
}

#[test]
fn line_count_moves_word_to_next_line() {
    // "cd" does not fit after "ab ", so it moves down whole.
    assert_eq!(number_of_lines_when_broken("ab cd", 4), 2);
}

#[test]
fn scroll_clamps_to_content() {
    let mut s = Scroll::new();
    s.set_content_length(100);
    s.set_view_port_height(10);
    s.to_bottom();
    assert_eq!(s.scroll, 90);
    s.offset(-5);
    assert_eq!(s.scroll, 85);
    s.offset(1000);
    assert_eq!(s.scroll, 100);
    s.offset(-1000);
    assert_eq!(s.scroll, 0);
    s.set_position(95);
    s.clamp();
    assert_eq!(s.scroll, 90);
}

#[test]
fn console_log_and_clear() {
    let mut c = ConsoleState::new();
    c.println("one");
    c.eprintln("bad");
    assert_eq!(c.messages, vec!["one", "ERROR: bad"]);
    c.clear();
    assert_eq!(c.messages.len(), 0);
}

#[test]
fn console_history_browsing() {
    let mut c = ConsoleState::new();
    c.command_history.push(String::from("first"));
    c.command_history.push(String::from("second"));
    c.command_buffer = String::from("typed");
    // Stepping into the history keeps the line being typed.
    c.history_next();
    assert_eq!(c.command_buffer, "second");
    c.history_next();
    assert_eq!(c.command_buffer, "first");
    c.history_next();
    assert_eq!(c.command_buffer, "first");
    c.history_previous();
    assert_eq!(c.command_buffer, "second");
    // Stepping past the newest entry restores the typed line.
    c.history_previous();
    assert_eq!(c.command_buffer, "typed");
}

#[test]
fn clock_states() {
    let clock = Clock { start: 100, finish: 200 };
    assert!(matches!(clock.state(50), fj_tui::ClockState::Before));
    assert!(matches!(clock.state(100), fj_tui::ClockState::During));
    assert!(matches!(clock.state(150), fj_tui::ClockState::During));
    assert!(matches!(clock.state(200), fj_tui::ClockState::During));
    assert!(matches!(clock.state(201), fj_tui::ClockState::After));
}

#[test]
fn clock_countdown_text() {
    let clock = Clock { start: 100, finish: 200 };
    assert_eq!(clock.countdown_string(10), "Starts in 01:30");
    assert_eq!(clock.countdown_string(100), "Ends in 01:40");
    assert_eq!(clock.countdown_string(195), "Ends in 00:05");
    assert_eq!(clock.countdown_string(300), "Ended");
    let long = Clock { start: 100000, finish: 200000 };
    assert_eq!(long.countdown_string(0), "Starts in 1666:40");
}

#[test]
fn clock_time_until_next_state() {
    let clock = Clock { start: 100, finish: 200 };
    assert_eq!(clock.time_until_next_state(40), 60);
    assert_eq!(clock.time_until_next_state(150), 50);
    assert_eq!(clock.time_until_next_state(999), 0);
}

#[test]
fn modifier_parses_numeric_prefix() {
    assert_eq!(parse_modifier("12j"), Some(12));
    assert_eq!(parse_modifier("7"), Some(7));
    assert_eq!(parse_modifier("j12"), None);
    assert_eq!(parse_modifier(""), None);
    assert_eq!(parse_modifier("99999999999999999999999999j"), None);
}

#[test]
fn typing_enter_returns_command() {
    let mut state = AppState::new();
    state.console.typing = true;
    state.console.command_buffer = String::from("echo hi");
    let cmd = handle_press(&mut state, Key::Enter);
    assert_eq!(cmd, Some(String::from("echo hi")));
    assert!(!state.console.typing);
    assert_eq!(state.console.command_buffer, "");
    assert_eq!(state.console.command_history, vec!["echo hi"]);
    assert_eq!(state.console.messages, vec!["echo hi"]);
}

#[test]
fn typing_repeated_command_kept_once_in_history() {
    let mut state = AppState::new();
    state.console.typing = true;
    state.console.command_buffer = String::from("x");
    handle_typing(&mut state, Key::Enter);
    state.console.typing = true;
    state.console.command_buffer = String::from("x");
    handle_typing(&mut state, Key::Enter);
    assert_eq!(state.console.command_history, vec!["x"]);
    assert_eq!(state.console.messages.len(), 2);
}

#[test]
fn typing_keys_edit_the_buffer() {
    let mut state = AppState::new();
    state.console.typing = true;
    handle_press(&mut state, Key::Ch('h'));
    handle_press(&mut state, Key::Ch('i'));
    assert_eq!(state.console.command_buffer, "hi");
    handle_press(&mut state, Key::Backspace);
    assert_eq!(state.console.command_buffer, "h");
    handle_press(&mut state, Key::Esc);
    assert!(!state.console.typing);
    assert_eq!(state.console.command_buffer, "");
}

#[test]
fn colon_starts_typing() {
    let mut state = AppState::new();
    let cmd = handle_press(&mut state, Key::Ch(':'));
    assert_eq!(cmd, None);
    assert!(state.console.typing);
}

#[test]
fn selection_moves_with_keys() {
    let mut state = AppState::new();
    state.problems.push(fj_tui::Problem::default());
    state.problems.push(fj_tui::Problem::default());
    state.problems.push(fj_tui::Problem::default());
    assert_eq!(state.selected_problem_borrow(), None);
    handle_press(&mut state, Key::Right);
    assert_eq!(state.selected_problem_borrow(), Some(0));
    handle_press(&mut state, Key::Right);
    assert_eq!(state.selected_problem_borrow(), Some(1));
    handle_press(&mut state, Key::Ch('l'));
    assert_eq!(state.selected_problem_borrow(), Some(2));
    // The selection stops at the last problem.
    handle_press(&mut state, Key::Right);
    assert_eq!(state.selected_problem_borrow(), Some(2));
    handle_press(&mut state, Key::Left);
    assert_eq!(state.selected_problem_borrow(), Some(1));
    handle_press(&mut state, Key::Ch('h'));
    assert_eq!(state.selected_problem_borrow(), Some(0));
    handle_press(&mut state, Key::Left);
    assert_eq!(state.selected_problem_borrow(), Some(0));
}

#[test]
fn count_modifier_scrolls() {
    let mut state = AppState::new();
    state.instructions_scroll.set_content_length(100);
    handle_press(&mut state, Key::Ch('5'));
    handle_press(&mut state, Key::Ch('j'));
    assert_eq!(state.instructions_scroll.scroll, 5);
    handle_press(&mut state, Key::Down);
    assert_eq!(state.instructions_scroll.scroll, 6);
    handle_press(&mut state, Key::Ch('2'));
    handle_press(&mut state, Key::Ch('k'));
    assert_eq!(state.instructions_scroll.scroll, 4);
}

#[test]
fn gg_scrolls_to_top() {
    let mut state = AppState::new();
    state.instructions_scroll.set_content_length(100);
    state.instructions_scroll.set_position(40);
    handle_press(&mut state, Key::Ch('g'));
    handle_press(&mut state, Key::Ch('g'));
    assert_eq!(state.instructions_scroll.scroll, 0);
}
