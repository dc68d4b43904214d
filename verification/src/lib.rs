//! A terminal client library for a remote problem-judging service.
//!
//! The heart of the crate is a small shell-like command interpreter:
//! it tokenizes a typed command line, recognizes control operators,
//! expands variables (including nested command substitution), and
//! dispatches to built-in verbs or to external processes.  All outside
//! effects (process spawning, file and network access, console output)
//! are mediated through an explicit request/reply exchange, so the
//! interpreter itself is a pure, verified function.
//!
//! Around the interpreter stand the client's state: the console log
//! and command history, scroll positions, the problem list and
//! selection, the competition clock, key handling, and credentials.

pub mod auth;
pub mod chars;
pub mod clock;
pub mod console;
pub mod env;
pub mod exec;
pub mod hello;
pub mod key;
pub mod lex;
pub mod problem;
pub mod scroll;
pub mod split;
pub mod state;
mod text;
pub mod vars;

pub use auth::Credentials;
pub use clock::{Clock, ClockState};
pub use console::ConsoleState;
pub use env::Env;
pub use exec::{exec, process_arg, ExecResult, Output, OutputMode, Reply, Request, Wire};
pub use hello::{fuzz, judge, judge_output, names, solution};
pub use key::{handle_press, handle_typing, Key, KeyState};
pub use lex::tokenize;
pub use problem::Problem;
pub use scroll::Scroll;
pub use split::split_by_oper;
pub use state::AppState;
pub use text::{number_of_lines_when_broken, pad_end};
pub use vars::{is_var_name_char, split_out_variables};
