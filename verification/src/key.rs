//! Key handling: turning a key press into state changes and, for a
//! finished command line, into the command the host should run.

use vstd::prelude::*;

use crate::chars::{char_numeric, numeric_char, pop_char, push_char, str_eq};
use crate::state::AppState;

verus! {

/// The pending multi-key command prefix (such as a numeric count).
pub struct KeyState {
    pub command_buffer: String,
}

impl KeyState {
    pub fn new() -> (r: KeyState)
        ensures
            r.command_buffer@.len() == 0,
    {
        KeyState { command_buffer: String::new() }
    }
}

/// A key press, as the interface reports it.
#[derive(PartialEq, Eq, Structural, Clone, Copy, Debug)]
pub enum Key {
    Left,
    Right,
    Up,
    Down,
    PageUp,
    PageDown,
    Enter,
    Backspace,
    Esc,
    Ch(char),
    Other,
}

/// How many leading characters of `s` are numeric.
pub open spec fn num_prefix_len(s: Seq<char>) -> int
    decreases s.len(),
{
    if s.len() == 0 || !numeric_char(s[0]) {
        0
    } else {
        1 + num_prefix_len(s.drop_first())
    }
}

/// Is `c` one of the ten ASCII digits?
pub open spec fn ascii_digit(c: char) -> bool {
    48 <= c as u32 <= 57
}

pub open spec fn digit_val(c: char) -> int {
    c as u32 - 48
}

/// The number the digit characters spell in decimal.
pub open spec fn dec_val(ds: Seq<char>) -> int
    decreases ds.len(),
{
    if ds.len() == 0 {
        0
    } else {
        dec_val(ds.drop_last()) * 10 + digit_val(ds.last())
    }
}

pub proof fn lemma_num_prefix_len(s: Seq<char>, i: int)
    requires
        0 <= i <= s.len(),
        forall|j: int| 0 <= j < i ==> numeric_char(s[j]),
        i == s.len() || !numeric_char(s[i]),
    ensures
        num_prefix_len(s) == i,
    decreases s.len(),
{
    if s.len() > 0 && numeric_char(s[0]) {
        assert(i > 0);
        assert(forall|j: int| 0 <= j < i - 1 ==> s.drop_first()[j] == s[j + 1]);
        if i < s.len() {
            assert(s.drop_first()[i - 1] == s[i]);
        }
        lemma_num_prefix_len(s.drop_first(), i - 1);
    }
}

pub proof fn lemma_dec_val_bounds(ds: Seq<char>)
    requires
        forall|j: int| 0 <= j < ds.len() ==> ascii_digit(ds[j]),
    ensures
        dec_val(ds) >= 0,
        ds.len() > 0 ==> dec_val(ds) >= dec_val(ds.drop_last()),
    decreases ds.len(),
{
    if ds.len() > 0 {
        assert(forall|j: int| 0 <= j < ds.len() - 1 ==> ds.drop_last()[j] == ds[j]);
        lemma_dec_val_bounds(ds.drop_last());
        assert(ascii_digit(ds.last()));
    }
}

/// Growing an all-digit sequence never shrinks its value.
pub proof fn lemma_dec_val_mono(ds: Seq<char>, k: int)
    requires
        0 <= k <= ds.len(),
        forall|j: int| 0 <= j < ds.len() ==> ascii_digit(ds[j]),
    ensures
        dec_val(ds.take(k)) <= dec_val(ds),
    decreases ds.len() - k,
{
    if k < ds.len() {
        assert(ds.take(k + 1).drop_last() =~= ds.take(k));
        assert(ds.take(k + 1).last() == ds[k]);
        assert(forall|j: int| 0 <= j < k + 1 ==> ds.take(k + 1)[j] == ds[j]);
        lemma_dec_val_bounds(ds.take(k));
        assert(ascii_digit(ds[k]));
        assert(dec_val(ds.take(k + 1)) == dec_val(ds.take(k)) * 10 + digit_val(ds[k]));
        lemma_dec_val_bounds(ds.take(k));
        assert(dec_val(ds.take(k)) <= dec_val(ds.take(k + 1)));
        lemma_dec_val_mono(ds, k + 1);
        assert(ds.take(ds.len() as int) =~= ds);
    } else {
        assert(ds.take(k) =~= ds);
    }
}

/// Parses the numeric prefix of the pending key buffer, as a count
/// modifier: the value of the leading numeric characters, or nothing
/// when there are none, when one is not an ASCII digit, or when the
/// value does not fit.
pub fn parse_modifier(s: &str) -> (r: Option<usize>)
    ensures
        ({
            let p = s@.take(num_prefix_len(s@));
            &&& (r is Some <==> p.len() > 0 && (forall|j: int| 0 <= j < p.len() ==> ascii_digit(
                #[trigger] p[j],
            )) && dec_val(p) <= usize::MAX)
            &&& (r is Some ==> r->0 == dec_val(p))
        }),
{
    let v = crate::chars::str_chars(s);
    let ghost gs = s@;
    let mut i: usize = 0;
    while i < v.len() && char_numeric(v[i])
        invariant
            v@ == gs,
            i <= gs.len(),
            forall|j: int| 0 <= j < i ==> numeric_char(gs[j]),
        decreases v@.len() - i,
    {
        i = i + 1;
    }
    proof {
        lemma_num_prefix_len(gs, i as int);
    }
    let ghost p = gs.take(i as int);
    if i == 0 {
        return None;
    }
    let mut value: usize = 0;
    let mut k: usize = 0;
    while k < i
        invariant
            v@ == gs,
            gs == s@,
            k <= i <= gs.len(),
            num_prefix_len(gs) == i as int,
            p == gs.take(i as int),
            forall|j: int| 0 <= j < k ==> ascii_digit(#[trigger] p[j]),
            value == dec_val(p.take(k as int)),
        decreases i - k,
    {
        let c = v[k];
        let u = c as u32;
        proof {
            assert(p.take(k as int + 1).drop_last() =~= p.take(k as int));
            assert(p.take(k as int + 1).last() == gs[k as int]);
        }
        if !(48 <= u && u <= 57) {
            proof {
                assert(k < p.len());
                assert(p[k as int] == gs[k as int]);
                assert(gs[k as int] == c);
                assert(!(48 <= c as u32 && c as u32 <= 57));
                assert(!ascii_digit(p[k as int]));
                assert(!(forall|j: int| 0 <= j < p.len() ==> ascii_digit(#[trigger] p[j])));
            }
            return None;
        }
        let d = (u - 48) as usize;
        if value > (usize::MAX - d) / 10 {
            // The prefix spells a number too large for `usize`.
            proof {
                assert(value * 10 + d > usize::MAX) by (nonlinear_arith)
                    requires
                        value > (usize::MAX - d) / 10,
                        d <= 9,
                ;
                assert(digit_val(p[k as int]) == d);
                assert(dec_val(p.take(k as int + 1)) == value * 10 + d);
                assert(dec_val(p.take(k as int + 1)) > usize::MAX);
                if forall|j: int| 0 <= j < p.len() ==> ascii_digit(#[trigger] p[j]) {
                    lemma_dec_val_mono(p, k as int + 1);
                    assert(dec_val(p) > usize::MAX);
                }
            }
            return None;
        }
        proof {
            assert(value * 10 + d <= usize::MAX) by (nonlinear_arith)
                requires
                    value <= (usize::MAX - d) / 10,
                    d <= 9,
            ;
        }
        value = value * 10 + d;
        k = k + 1;
    }
    proof {
        assert(p.take(i as int) =~= p);
    }
    Some(value)
}

/// Handles a key press outside typing mode, or hands it to
/// `handle_typing` when the console prompt is active.  `Some(cmd)`
/// asks the host to run `cmd` through the interpreter.
pub fn handle_press(state: &mut AppState, key: Key) -> (cmd: Option<String>)
    requires
        old(state).console.wf(),
    ensures
        final(state).console.wf(),
        final(state).problems == old(state).problems,
        final(state).running == old(state).running,
        final(state).clock == old(state).clock,
        final(state).on_new_problem == old(state).on_new_problem,
        cmd is Some ==> old(state).console.typing && key is Enter && cmd->0@ == old(state).console.command_buffer@,
        old(state).console.typing ==> final(state).key == old(state).key && final(state).instructions_scroll == old(state).instructions_scroll && final(state).spec_selected() == old(state).spec_selected(),
        !old(state).console.typing ==> cmd is None,
        !old(state).console.typing && (key is Left || key == Key::Ch('h')) ==> ({
            &&& final(state).spec_selected() == Some(
                match old(state).spec_selected() {
                    Some(i) => if i > 0 {
                        (i - 1) as usize
                    } else {
                        0
                    },
                    None => 0,
                },
            )
            &&& final(state).key.command_buffer@.len() == 0
        }),
        !old(state).console.typing && (key is Right || key == Key::Ch('l')) ==> ({
            match old(state).spec_selected() {
                Some(s) => if old(state).problems@.len() > 0 && s + 1 < old(state).problems@.len() {
                    final(state).spec_selected() == Some((s + 1) as usize) && final(state).key.command_buffer@.len() == 0
                } else {
                    final(state).spec_selected() == old(state).spec_selected()
                },
                None => final(state).spec_selected() == Some(0usize) && final(state).key.command_buffer@.len() == 0,
            }
        }),
        !old(state).console.typing && key == Key::Ch(':') ==> final(state).console.typing && final(state).key.command_buffer@.len() == 0,
    {
        if state.console.typing {
            let r = handle_typing(state, key);
            return r;
        }
        let modifier = parse_modifier(state.key.command_buffer.as_str());
        match key {
            Key::Left => {
                press_left(state);
            },
            Key::Right => {
                press_right(state);
            },
            Key::Down => {
                press_scroll(state, modifier, true);
            },
            Key::Up => {
                press_scroll(state, modifier, false);
            },
            Key::PageUp => {
                state.console.scroll.offset(-1);
                state.key.command_buffer = String::new();
            },
            Key::PageDown => {
                state.console.scroll.offset(1);
                state.key.command_buffer = String::new();
            },
            Key::Ch(c) => {
                if c == ':' {
                    state.console.typing = true;
                    state.console.scroll.to_bottom();
                    state.key.command_buffer = String::new();
                } else if c == 'h' {
                    press_left(state);
                } else if c == 'l' {
                    press_right(state);
                } else if c == 'j' {
                    press_scroll(state, modifier, true);
                } else if c == 'k' {
                    press_scroll(state, modifier, false);
                } else if c == 'G' {
                    match modifier {
                        Some(m) => {
                            state.instructions_scroll.set_position(m);
                        },
                        None => {
                            state.instructions_scroll.to_bottom();
                        },
                    }
                    state.key.command_buffer = String::new();
                } else {
                    if is_ascii_alnum(c) {
                        push_char(&mut state.key.command_buffer, c);
                    }
                    if ends_in_gg(state.key.command_buffer.as_str()) {
                        state.instructions_scroll.set_position(0);
                        state.key.command_buffer = String::new();
                    }
                }
            },
            _ => {},
        }
        None
    }

/// Steps the problem selection back (or to the first problem) and
/// clears the pending key prefix.
fn press_left(state: &mut AppState)
    requires
        old(state).console.wf(),
    ensures
        final(state).console.wf(),
        final(state).problems == old(state).problems,
        final(state).running == old(state).running,
        final(state).clock == old(state).clock,
        final(state).on_new_problem == old(state).on_new_problem,
        final(state).console == old(state).console,
        final(state).spec_selected() == Some(
            match old(state).spec_selected() {
                Some(i) => if i > 0 {
                    (i - 1) as usize
                } else {
                    0
                },
                None => 0,
            },
        ),
        final(state).key.command_buffer@.len() == 0,
{
    let sel = state.selected_problem_borrow();
    let prev: usize = match sel {
        Some(i) => if i > 0 {
            i - 1
        } else {
            0
        },
        None => 0,
    };
    state.selected_problem_set(Some(prev));
    state.key.command_buffer = String::new();
}

/// Steps the problem selection forward when another problem follows,
/// or selects the first problem when none is selected.
fn press_right(state: &mut AppState)
    requires
        old(state).console.wf(),
    ensures
        final(state).console.wf(),
        final(state).problems == old(state).problems,
        final(state).running == old(state).running,
        final(state).clock == old(state).clock,
        final(state).on_new_problem == old(state).on_new_problem,
        final(state).console == old(state).console,
        match old(state).spec_selected() {
            Some(s) => if old(state).problems@.len() > 0 && s + 1 < old(state).problems@.len() {
                final(state).spec_selected() == Some((s + 1) as usize) && final(state).key.command_buffer@.len() == 0
            } else {
                final(state).spec_selected() == old(state).spec_selected() && final(state).key
                    == old(state).key
            },
            None => final(state).spec_selected() == Some(0usize) && final(state).key.command_buffer@.len() == 0,
        },
{
    let sel = state.selected_problem_borrow();
    match sel {
        Some(s) => {
            if state.problems.len() > 0 && s < state.problems.len() - 1 {
                state.selected_problem_set(Some(s + 1));
                state.key.command_buffer = String::new();
            }
        },
        None => {
            state.selected_problem_set(Some(0));
            state.key.command_buffer = String::new();
        },
    }
}

/// Scrolls the instructions pane by the count modifier (default one)
/// and clears the pending key prefix.
fn press_scroll(state: &mut AppState, modifier: Option<usize>, down: bool)
    requires
        old(state).console.wf(),
    ensures
        final(state).console.wf(),
        final(state).problems == old(state).problems,
        final(state).running == old(state).running,
        final(state).clock == old(state).clock,
        final(state).on_new_problem == old(state).on_new_problem,
        final(state).console == old(state).console,
        final(state).spec_selected() == old(state).spec_selected(),
        final(state).key.command_buffer@.len() == 0,
{
    let m: usize = match modifier {
        Some(m) => m,
        None => 1,
    };
    // The step is clamped into the `i32` offset range.
    let step: i32 = if m > i32::MAX as usize {
        i32::MAX
    } else {
        m as i32
    };
    if down {
        state.instructions_scroll.offset(step);
    } else {
        state.instructions_scroll.offset(-step);
    }
    state.key.command_buffer = String::new();
}

/// Is `c` an ASCII letter or digit?
fn is_ascii_alnum(c: char) -> (r: bool)
    ensures
        r == ({
            let u = c as u32;
            (48 <= u && u <= 57) || (65 <= u && u <= 90) || (97 <= u && u <= 122)
        }),
{
    let u = c as u32;
    (48 <= u && u <= 57) || (65 <= u && u <= 90) || (97 <= u && u <= 122)
}

/// Do the last two characters spell `gg`?
fn ends_in_gg(s: &str) -> (r: bool)
    ensures
        r == (s@.len() >= 2 && s@[s@.len() - 1] == 'g' && s@[s@.len() - 2] == 'g'),
{
    let v = crate::chars::str_chars(s);
    if v.len() >= 2 {
        v[v.len() - 1] == 'g' && v[v.len() - 2] == 'g'
    } else {
        false
    }
}

/// Handles a key press while the console prompt is active.  Enter
/// finishes the line: it goes to the log and the history, the prompt
/// resets, and the line is returned for the host to run.
pub fn handle_typing(state: &mut AppState, key: Key) -> (cmd: Option<String>)
    requires
        old(state).console.wf(),
    ensures
        final(state).console.wf(),
        final(state).problems == old(state).problems,
        final(state).running == old(state).running,
        final(state).clock == old(state).clock,
        final(state).on_new_problem == old(state).on_new_problem,
        final(state).key == old(state).key,
        final(state).instructions_scroll == old(state).instructions_scroll,
        final(state).spec_selected() == old(state).spec_selected(),
        key is Enter ==> ({
            &&& cmd is Some
            &&& cmd->0@ == old(state).console.command_buffer@
            &&& !final(state).console.typing
            &&& final(state).console.command_buffer@.len() == 0
            &&& final(state).console.command_history_index == 0
            &&& final(state).console.pre_history_command is None
            &&& final(state).console.messages@.len() == old(state).console.messages@.len() + 1
            &&& final(state).console.messages@.last()@ == old(state).console.command_buffer@
            &&& final(state).console.messages@.drop_last() == old(state).console.messages@
            &&& (if old(state).console.command_history@.len() == 0 || old(state).console.command_history@.last()@ != old(state).console.command_buffer@ {
                final(state).console.command_history@.len() == old(state).console.command_history@.len() + 1 && final(state).console.command_history@.last()@ == old(state).console.command_buffer@ && final(state).console.command_history@.drop_last() == old(state).console.command_history@
            } else {
                final(state).console.command_history == old(state).console.command_history
            })
        }),
        !(key is Enter) ==> cmd is None,
        key is Backspace ==> ({
            &&& final(state).console.command_buffer@ == (if old(state).console.command_buffer@.len() > 0 {
                old(state).console.command_buffer@.drop_last()
            } else {
                old(state).console.command_buffer@
            })
            &&& final(state).console.typing == old(state).console.typing
            &&& final(state).console.messages == old(state).console.messages
        }),
        key is Esc ==> ({
            &&& !final(state).console.typing
            &&& final(state).console.command_buffer@.len() == 0
            &&& final(state).console.command_history_index == 0
            &&& final(state).console.pre_history_command is None
            &&& final(state).console.messages == old(state).console.messages
        }),
        key matches Key::Ch(c) ==> ({
            &&& final(state).console.command_buffer@ == old(state).console.command_buffer@.push(
                key->Ch_0,
            )
            &&& final(state).console.typing == old(state).console.typing
            &&& final(state).console.messages == old(state).console.messages
        }),
        key is Up || key is Down ==> ({
            &&& final(state).console.messages == old(state).console.messages
            &&& final(state).console.typing == old(state).console.typing
            &&& final(state).console.command_history == old(state).console.command_history
        }),
        key is Other || key is Left || key is Right || key is PageUp || key is PageDown ==> final(state).console == old(state).console,
{
    match key {
        Key::Enter => {
            state.console.typing = false;
            let cmd = state.console.command_buffer.clone();
            let push_to_history = if state.console.command_history.len() > 0 {
                let last = &state.console.command_history[state.console.command_history.len() - 1];
                !str_eq(last.as_str(), cmd.as_str())
            } else {
                true
            };
            if push_to_history {
                let ghost oh = state.console.command_history@;
                state.console.command_history.push(cmd.clone());
                proof {
                    assert(state.console.command_history@.drop_last() =~= oh);
                }
            }
            let ghost om = state.console.messages@;
            state.console.messages.push(cmd.clone());
            proof {
                assert(state.console.messages@.drop_last() =~= om);
            }
            state.console.command_buffer = String::new();
            state.console.command_history_index = 0;
            state.console.pre_history_command = None;
            Some(cmd)
        },
        Key::Backspace => {
            pop_char(&mut state.console.command_buffer);
            None
        },
        Key::Esc => {
            state.console.typing = false;
            state.console.command_buffer = String::new();
            state.console.command_history_index = 0;
            state.console.pre_history_command = None;
            None
        },
        Key::Ch(c) => {
            push_char(&mut state.console.command_buffer, c);
            None
        },
        Key::Up => {
            state.console.history_next();
            None
        },
        Key::Down => {
            state.console.history_previous();
            None
        },
        _ => None,
    }
}

} // verus!
