//! Tests that exercise the trusted wrappers with the real outside
//! crates linked: base64 for the authentication header, rand_chacha
//! for the sample problem.

use fj_tui::{fuzz, judge, judge_output, names, solution, Credentials};

#[test]
fn auth_header_encodes_credentials() {
    let creds = Credentials::new("user", "pass");
    // base64 of "user:pass".
    assert_eq!(creds.auth_header_value(), "Basic dXNlcjpwYXNz");
    let empty = Credentials::new("", "");
    assert_eq!(empty.auth_header_value(), "Basic Og==");
}

#[test]
fn names_are_a_permutation() {
    let mut drawn = names(7);
    drawn.sort();
    let mut expected = vec!["Alice", "Bob", "Eve", "Ferris", "Graydon", "Jane", "John"];
    expected.sort();
    assert_eq!(drawn, expected);
}

#[test]
fn names_are_deterministic_in_the_seed() {
    assert_eq!(names(123), names(123));
    assert_eq!(fuzz(9), fuzz(9));
}

#[test]
fn fuzz_lists_names_line_by_line() {
    let text = fuzz(3);
    let mut lines: Vec<&str> = text.split('\n').collect();
    assert_eq!(lines.len(), 7);
    lines.sort();
    let mut expected = vec!["Alice", "Bob", "Eve", "Ferris", "Graydon", "Jane", "John"];
    expected.sort();
    assert_eq!(lines, expected);
}

#[test]
fn solution_greets_every_name() {
    let text = solution(5);
    let lines: Vec<&str> = text.split('\n').collect();
    assert_eq!(lines.len(), 7);
    for line in lines {
        assert!(line.starts_with("Hello, "));
        assert!(line.ends_with("!"));
    }
}

#[test]
fn judge_accepts_the_solution() {
    for seed in [0u64, 1, 2, 41] {
        let sol = solution(seed);
        assert!(judge(seed, &sol).is_ok());
        let padded = format!("  {}\n\n", sol);
        assert!(judge(seed, &padded).is_ok());
    }
}

#[test]
fn judge_rejects_wrong_output() {
    let verdict = judge(7, "not the answer");
    assert_eq!(verdict, Err(String::from("Incorrect solution.")));
}

#[test]
fn judge_output_ignores_surrounding_space() {
    assert!(judge_output("a b", "  a b \t\n"));
    assert!(!judge_output("a b", "a  b"));
}
