//! The application state shared by the interface and the interpreter:
//! the problem list, the console, the scroll positions, the clock, and
//! the running flag.

use vstd::prelude::*;

use crate::clock::Clock;
use crate::console::ConsoleState;
use crate::key::KeyState;
use crate::problem::Problem;
use crate::scroll::Scroll;

verus! {

pub struct AppState {
    pub problems: Vec<Problem>,
    pub running: bool,
    pub instructions_scroll: Scroll,
    pub console: ConsoleState,
    pub key: KeyState,
    pub clock: Option<Clock>,
    /// Commands run when a new problem arrives; `$q` is bound to the
    /// problem's slug.
    pub on_new_problem: Vec<String>,
    /// The highlighted problem; read it through
    /// `selected_problem_borrow` and change it through the setters,
    /// which keep the instructions scroll in step.
    pub selected_problem: Option<usize>,
}

impl AppState {
    pub open spec fn spec_selected(&self) -> Option<usize> {
        self.selected_problem
    }

    pub fn new() -> (r: AppState)
        ensures
            r.problems@.len() == 0,
            r.running,
            r.spec_selected() is None,
            r.on_new_problem@.len() == 0,
            r.clock is None,
            r.console.wf(),
            !r.console.typing,
            r.console.messages@.len() == 0,
            r.key.command_buffer@.len() == 0,
    {
        AppState {
            problems: Vec::new(),
            running: true,
            selected_problem: None,
            instructions_scroll: Scroll::new(),
            console: ConsoleState::new(),
            key: KeyState::new(),
            on_new_problem: Vec::new(),
            clock: None,
        }
    }

    /// The index of the highlighted problem, if any.
    pub fn selected_problem_borrow(&self) -> (r: Option<usize>)
        ensures
            r == self.spec_selected(),
    {
        self.selected_problem
    }

    /// Changes the highlighted problem and resets the instructions
    /// scroll.
    pub fn selected_problem_set(&mut self, sel: Option<usize>)
        ensures
            final(self).spec_selected() == sel,
            final(self).instructions_scroll.scroll == 0,
            final(self).instructions_scroll.content_length == old(self).instructions_scroll.content_length,
            final(self).instructions_scroll.view_port_height == old(self).instructions_scroll.view_port_height,
            final(self).problems == old(self).problems,
            final(self).running == old(self).running,
            final(self).console == old(self).console,
            final(self).key == old(self).key,
            final(self).clock == old(self).clock,
            final(self).on_new_problem == old(self).on_new_problem,
    {
        self.instructions_scroll.set_position(0);
        self.selected_problem = sel;
    }

    /// Changes the highlighted problem, keeping the scroll.
    pub fn selected_problem_set_no_scroll(&mut self, sel: Option<usize>)
        ensures
            final(self).spec_selected() == sel,
            final(self).instructions_scroll == old(self).instructions_scroll,
            final(self).problems == old(self).problems,
            final(self).running == old(self).running,
            final(self).console == old(self).console,
            final(self).key == old(self).key,
            final(self).clock == old(self).clock,
            final(self).on_new_problem == old(self).on_new_problem,
    {
        self.selected_problem = sel;
    }
}

} // verus!
