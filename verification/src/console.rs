//! The console pane's state: the visible log, the command line being
//! typed, and the command history.

use vstd::prelude::*;

use crate::scroll::Scroll;
use crate::text::number_of_lines_when_broken;

verus! {

pub struct ConsoleState {
    pub messages: Vec<String>,
    pub command_buffer: String,
    pub command_history: Vec<String>,
    pub typing: bool,
    pub scroll: Scroll,
    pub command_history_index: usize,
    pub pre_history_command: Option<String>,
    pub console_width: usize,
}

impl ConsoleState {
    /// The history index points into the history (or at its start when
    /// the history is empty).
    pub open spec fn wf(&self) -> bool {
        self.command_history_index == 0 || self.command_history_index
            < self.command_history@.len()
    }

    pub fn new() -> (r: ConsoleState)
        ensures
            r.messages@.len() == 0,
            r.command_buffer@.len() == 0,
            r.command_history@.len() == 0,
            !r.typing,
            r.command_history_index == 0,
            r.pre_history_command is None,
            r.console_width == 0,
            r.wf(),
    {
        ConsoleState {
            messages: Vec::new(),
            command_buffer: String::new(),
            command_history: Vec::new(),
            typing: false,
            scroll: Scroll::new(),
            command_history_index: 0,
            pre_history_command: None,
            console_width: 0,
        }
    }

    /// Appends a line to the log and scrolls to the latest entry.
    pub fn println(&mut self, message: &str)
        ensures
            final(self).messages@.len() == old(self).messages@.len() + 1,
            final(self).messages@.drop_last() == old(self).messages@,
            final(self).messages@.last()@ == message@,
            final(self).command_buffer == old(self).command_buffer,
            final(self).command_history == old(self).command_history,
            final(self).typing == old(self).typing,
            final(self).command_history_index == old(self).command_history_index,
            final(self).pre_history_command == old(self).pre_history_command,
            final(self).console_width == old(self).console_width,
            final(self).scroll.scroll == final(self).scroll.spec_bottom(),
            final(self).scroll.view_port_height == old(self).scroll.view_port_height,
            final(self).wf() == old(self).wf(),
    {
        let m = message.to_owned();
        let ghost om = self.messages@;
        self.messages.push(m);
        proof {
            assert(self.messages@.drop_last() =~= om);
        }
        self.recompute_scroll();
        self.scroll.to_bottom();
    }

    /// Appends an error line: the message behind an `ERROR: ` marker.
    pub fn eprintln(&mut self, message: &str)
        ensures
            final(self).messages@.len() == old(self).messages@.len() + 1,
            final(self).messages@.drop_last() == old(self).messages@,
            final(self).messages@.last()@ == "ERROR: "@ + message@,
            final(self).command_buffer == old(self).command_buffer,
            final(self).command_history == old(self).command_history,
            final(self).typing == old(self).typing,
            final(self).command_history_index == old(self).command_history_index,
            final(self).pre_history_command == old(self).pre_history_command,
            final(self).console_width == old(self).console_width,
            final(self).wf() == old(self).wf(),
    {
        let mut line = "ERROR: ".to_owned();
        line.append(message);
        self.println(line.as_str());
    }

    /// Empties the log.
    pub fn clear(&mut self)
        ensures
            final(self).messages@.len() == 0,
            final(self).command_buffer == old(self).command_buffer,
            final(self).command_history == old(self).command_history,
            final(self).typing == old(self).typing,
            final(self).command_history_index == old(self).command_history_index,
            final(self).pre_history_command == old(self).pre_history_command,
            final(self).console_width == old(self).console_width,
            final(self).scroll.content_length == 0,
            final(self).wf() == old(self).wf(),
    {
        self.messages.clear();
        self.scroll.set_content_length(0);
    }

    /// Records the pane width used to estimate wrapped line counts.
    pub fn set_console_width(&mut self, width: usize)
        ensures
            final(self).console_width == width,
            final(self).messages == old(self).messages,
            final(self).command_buffer == old(self).command_buffer,
            final(self).command_history == old(self).command_history,
            final(self).typing == old(self).typing,
            final(self).command_history_index == old(self).command_history_index,
            final(self).pre_history_command == old(self).pre_history_command,
            final(self).wf() == old(self).wf(),
    {
        self.console_width = width;
        self.recompute_scroll();
    }

    /// Re-estimates how many wrapped lines the log and the prompt
    /// occupy, and stores it as the scroll extent.  The estimate must
    /// be recomputed here because the rendering wraps long lines
    /// without reporting how many rows they took.
    fn recompute_scroll(&mut self)
        ensures
            final(self).messages == old(self).messages,
            final(self).command_buffer == old(self).command_buffer,
            final(self).command_history == old(self).command_history,
            final(self).typing == old(self).typing,
            final(self).command_history_index == old(self).command_history_index,
            final(self).pre_history_command == old(self).pre_history_command,
            final(self).console_width == old(self).console_width,
            final(self).scroll.view_port_height == old(self).scroll.view_port_height,
            final(self).scroll.scroll <= final(self).scroll.spec_bottom() || final(self).scroll.scroll == old(self).scroll.scroll,
    {
        let mut lines: usize = 0;
        let mut mi: usize = 0;
        while mi < self.messages.len()
            invariant
                mi <= self.messages@.len(),
            decreases self.messages@.len() - mi,
        {
            let mut mc = crate::chars::str_chars(self.messages[mi].as_str());
            if mc.len() > 0 && mc[mc.len() - 1] == '\n' {
                mc.pop();
            }
            let segments = split_newlines(&mc);
            let mut si: usize = 0;
            while si < segments.len()
                invariant
                    si <= segments@.len(),
                decreases segments@.len() - si,
            {
                let mut shown = "> ".to_owned();
                shown.append(segments[si].as_str());
                let n = number_of_lines_when_broken(shown.as_str(), self.console_width);
                lines = sat_add(lines, n);
                si = si + 1;
            }
            mi = mi + 1;
        }
        let mut prompt = "> ".to_owned();
        prompt.append(self.command_buffer.as_str());
        let n = number_of_lines_when_broken(prompt.as_str(), self.console_width);
        lines = sat_add(lines, n);
        self.scroll.set_content_length(lines);
    }

    /// Steps back toward the older entries of the history that the
    /// user is browsing, or restores the line typed before browsing
    /// began.
    pub fn history_previous(&mut self)
        requires
            old(self).wf(),
        ensures
            final(self).wf(),
            final(self).messages == old(self).messages,
            final(self).command_history == old(self).command_history,
            final(self).typing == old(self).typing,
            final(self).console_width == old(self).console_width,
            old(self).pre_history_command is None || old(self).command_history@.len() == 0 ==> ({
                &&& final(self).command_buffer == old(self).command_buffer
                &&& final(self).command_history_index == old(self).command_history_index
                &&& final(self).pre_history_command == old(self).pre_history_command
            }),
            old(self).pre_history_command is Some && old(self).command_history@.len() > 0 && old(self).command_history_index == 0 ==> ({
                &&& final(self).command_buffer == old(self).pre_history_command->0
                &&& final(self).pre_history_command is None
                &&& final(self).command_history_index == 0
            }),
            old(self).pre_history_command is Some && old(self).command_history@.len() > 0 && old(self).command_history_index > 0 ==> ({
                &&& final(self).command_history_index == old(self).command_history_index - 1
                &&& final(self).command_buffer@ == old(self).command_history@[
                    old(self).command_history@.len() - 1 - (old(self).command_history_index
                    - 1)]@
                &&& final(self).pre_history_command == old(self).pre_history_command
            }),
    {
        if self.pre_history_command.is_none() || self.command_history.len() == 0 {
            return ;
        }
        let max_idx = self.command_history.len() - 1;
        if self.command_history_index == 0 {
            match &self.pre_history_command {
                Some(p) => {
                    self.command_buffer = p.clone();
                },
                None => {},
            }
            self.pre_history_command = None;
            return ;
        }
        let mut idx = self.command_history_index - 1;
        if idx > max_idx {
            idx = max_idx;
        }
        self.command_history_index = idx;
        self.command_buffer = self.command_history[max_idx - idx].clone();
        self.scroll.to_bottom();
    }

    /// Starts browsing the history (keeping the line being typed), or
    /// steps toward its newer entries.
    pub fn history_next(&mut self)
        requires
            old(self).wf(),
        ensures
            final(self).wf(),
            final(self).messages == old(self).messages,
            final(self).command_history == old(self).command_history,
            final(self).typing == old(self).typing,
            final(self).console_width == old(self).console_width,
            old(self).command_history@.len() == 0 ==> ({
                &&& final(self).command_buffer == old(self).command_buffer
                &&& final(self).command_history_index == old(self).command_history_index
                &&& final(self).pre_history_command == old(self).pre_history_command
            }),
            old(self).command_history@.len() > 0 && old(self).pre_history_command is None ==> ({
                &&& final(self).pre_history_command matches Some(p) && p@ == old(self).command_buffer@
                &&& final(self).command_history_index == old(self).command_history_index
                &&& final(self).command_buffer@ == old(self).command_history@[
                    old(self).command_history@.len() - 1 - old(self).command_history_index]@
            }),
            old(self).command_history@.len() > 0 && old(self).pre_history_command is Some ==> ({
                &&& final(self).pre_history_command == old(self).pre_history_command
                &&& final(self).command_history_index == (if old(self).command_history_index + 1
                    <= old(self).command_history@.len() - 1 {
                    old(self).command_history_index + 1
                } else {
                    old(self).command_history@.len() - 1
                })
                &&& final(self).command_buffer@ == old(self).command_history@[
                    old(self).command_history@.len() - 1 - final(self).command_history_index]@
            }),
    {
        if self.command_history.len() == 0 {
            return ;
        }
        let max_idx = self.command_history.len() - 1;
        if self.pre_history_command.is_none() {
            self.pre_history_command = Some(self.command_buffer.clone());
        } else {
            let mut idx = self.command_history_index + 1;
            if idx > max_idx {
                idx = max_idx;
            }
            self.command_history_index = idx;
        }
        self.command_buffer = self.command_history[max_idx - self.command_history_index].clone();
        self.scroll.to_bottom();
    }
}

/// `a + b`, stopping at the top of `usize`.
fn sat_add(a: usize, b: usize) -> (r: usize)
    ensures
        r == if a + b <= usize::MAX {
            a + b
        } else {
            usize::MAX as int
        },
{
    if a <= usize::MAX - b {
        a + b
    } else {
        usize::MAX
    }
}

/// Splits `v` at newline characters; the separators are dropped and
/// empty segments are kept, so there is always at least one segment.
fn split_newlines(v: &Vec<char>) -> (r: Vec<String>)
    ensures
        r@.len() >= 1,
{
    let mut parts: Vec<String> = Vec::new();
    let mut cur: Vec<char> = Vec::new();
    let mut i: usize = 0;
    while i < v.len()
        invariant
            i <= v@.len(),
        decreases v@.len() - i,
    {
        let c = v[i];
        if c == '\n' {
            parts.push(crate::chars::chars_string(&cur));
            cur = Vec::new();
        } else {
            cur.push(c);
        }
        i = i + 1;
    }
    parts.push(crate::chars::chars_string(&cur));
    parts
}

} // verus!
