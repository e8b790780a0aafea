//! Terminal presentation: ANSI styles, the front-end interface the agent
//! reports through, and the line-mode rendering of its events.

use vstd::prelude::*;
use crate::agent::{event_view, EventV, UiEvent};
use crate::text::{chars_of, lines, lines_exec, push_all, push_str, string_of, views};

verus! {

pub const RESET: &'static str = "\x1b[0m";
pub const DIM: &'static str = "\x1b[2m";
pub const BOLD: &'static str = "\x1b[1m";
pub const RED: &'static str = "\x1b[31m";
pub const GREEN: &'static str = "\x1b[32m";
pub const YELLOW: &'static str = "\x1b[33m";
pub const BLUE: &'static str = "\x1b[34m";
pub const CYAN: &'static str = "\x1b[36m";
pub const GREY: &'static str = "\x1b[90m";

/// `s` wrapped in a color and a reset.
pub open spec fn painted(color: Seq<char>, s: Seq<char>) -> Seq<char> {
    color + s + RESET@
}

/// Wrap `s` in an ANSI color code and a reset.
pub fn paint(color: &str, s: &str) -> (r: String)
    ensures
        r@ == painted(color@, s@),
{
    let mut v = chars_of(color);
    push_str(&mut v, s);
    push_str(&mut v, RESET);
    string_of(&v)
}

/// What the agent reports to, and asks through: the front end.
pub trait Ui {
    fn assistant_message(&mut self, text: &str);
    fn notice(&mut self, text: &str);
    fn tool_start(&mut self, name: &str, summary: &str);
    fn tool_result(&mut self, name: &str, output: &str, is_error: bool);
    fn confirm(&mut self, prompt: &str, preview: Option<&str>) -> bool;
}

/// Report a step's events to the front end, in order.
pub fn show_events<U: Ui + ?Sized>(ui: &mut U, events: &Vec<UiEvent>) {
    let mut i: usize = 0;
    while i < events.len()
        invariant
            i <= events.len(),
        decreases events.len() - i,
    {
        match &events[i] {
            UiEvent::Notice(t) => ui.notice(t.as_str()),
            UiEvent::ToolStart { name, summary } => ui.tool_start(name.as_str(), summary.as_str()),
            UiEvent::ToolResult { name, output, is_error } => ui.tool_result(name.as_str(), output.as_str(), *is_error),
        }
        i += 1;
    }
}

/// Lines of tool output shown in line mode.
pub open spec fn shown_lines() -> nat {
    20
}

/// The plain line-mode front end.
pub struct LineUi {
    pub non_interactive: bool,
}

/// The line-mode rendering of a tool result: up to twenty lines, indented,
/// red for an error, grey otherwise, then a note if more were cut.
pub open spec fn result_lines(output: Seq<char>, is_error: bool) -> Seq<Seq<char>> {
    let ls = lines(output);
    let color = if is_error { RED@ } else { GREY@ };
    let n = if ls.len() > shown_lines() { shown_lines() } else { ls.len() };
    let shown = Seq::new(n, |i: int| "    "@ + painted(color, ls[i]));
    if ls.len() > shown_lines() {
        shown.push("    "@ + painted(GREY@, "… (output truncated)"@))
    } else {
        shown
    }
}

impl LineUi {
    /// A line-mode front end; a non-interactive one declines every prompt.
    pub fn new(non_interactive: bool) -> (r: LineUi)
        ensures
            r.non_interactive == non_interactive,
    {
        LineUi { non_interactive }
    }

    /// The answer to an approval prompt that needs no asking: a
    /// non-interactive run declines.
    pub fn preset_answer(&self) -> (r: Option<bool>)
        ensures
            r == (if self.non_interactive { Some(false) } else { None::<bool> }),
    {
        if self.non_interactive {
            Some(false)
        } else {
            None
        }
    }

    /// The line printed for a notice: `ℹ text`, in yellow.
    pub fn notice_line(text: &str) -> (r: String)
        ensures
            r@ == painted(YELLOW@, "ℹ "@ + text@),
    {
        let mut v = chars_of("ℹ ");
        push_str(&mut v, text);
        let t = string_of(&v);
        paint(YELLOW, t.as_str())
    }

    /// The line printed when a tool starts: a cyan `›` and the summary.
    pub fn tool_start_line(summary: &str) -> (r: String)
        ensures
            r@ == "  "@ + painted(CYAN@, "›"@) + " "@ + summary@,
    {
        let mut v = chars_of("  ");
        let p = paint(CYAN, "›");
        push_str(&mut v, p.as_str());
        push_str(&mut v, " ");
        push_str(&mut v, summary);
        string_of(&v)
    }

    /// The line printed for the model's final text: a green `⏺`, after a
    /// blank line.
    pub fn assistant_line(text: &str) -> (r: String)
        ensures
            r@ == "\n"@ + painted(GREEN@, "⏺"@) + " "@ + text@,
    {
        let mut v = chars_of("\n");
        let p = paint(GREEN, "⏺");
        push_str(&mut v, p.as_str());
        push_str(&mut v, " ");
        push_str(&mut v, text);
        string_of(&v)
    }

    /// The lines printed for a tool result (see [`result_lines`]).
    pub fn tool_result_lines(output: &str, is_error: bool) -> (r: Vec<String>)
        ensures
            crate::text::strings_view(r@) == result_lines(output@, is_error),
    {
        let oc = chars_of(output);
        let ls = lines_exec(&oc);
        let color = if is_error { RED } else { GREY };
        let mut r: Vec<String> = Vec::new();
        let mut i: usize = 0;
        let ghost n = if ls@.len() > shown_lines() { shown_lines() } else { ls@.len() };
        while i < ls.len() && i < 20
            invariant
                i <= ls@.len(),
                i <= 20,
                views(ls@) == lines(output@),
                color@ == (if is_error { RED@ } else { GREY@ }),
                crate::text::strings_view(r@) =~= Seq::new(i as nat, |k: int| "    "@ + painted(color@, lines(output@)[k])),
            decreases ls.len() - i,
        {
            let line = string_of(&ls[i]);
            let p = paint(color, line.as_str());
            let mut v = chars_of("    ");
            push_str(&mut v, p.as_str());
            let ghost before = crate::text::strings_view(r@);
            r.push(string_of(&v));
            assert(crate::text::strings_view(r@) =~= before.push("    "@ + painted(color@, lines(output@)[i as int])));
            i += 1;
        }
        if ls.len() > 20 {
            let p = paint(GREY, "… (output truncated)");
            let mut v = chars_of("    ");
            push_str(&mut v, p.as_str());
            let ghost before = crate::text::strings_view(r@);
            r.push(string_of(&v));
            assert(crate::text::strings_view(r@) =~= before.push("    "@ + painted(GREY@, "… (output truncated)"@)));
        }
        r
    }
}

} // verus!
