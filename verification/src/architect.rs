//! Plan-then-edit: a read-only planning pass produces a change plan, which
//! an editing pass then applies. The library prepares each pass on the
//! agent; the front end runs the turns in between.

use vstd::prelude::*;
use crate::agent::{last_assistant, Agent, Cfg};
use crate::config::SandboxLevel;
use crate::engine::{simple_view, Role};
use crate::text::{chars_of, match_at, match_at_exec, push_str, rfind, rfind_upto, slice_of, string_of, trim, trim_end, trim_end_exec, trim_exec};

verus! {

pub const ARCHITECT_INSTRUCTION: &'static str = "ARCHITECT MODE (read-only — you CANNOT edit files in this pass).
First READ every file relevant to the request (use read_file / grep / glob / list_dir).
Then produce a precise implementation PLAN:
- For EACH file that must change: its exact path, then bullet points naming the
  specific edits (which functions/symbols to add, change, or remove, and the nearby
  anchor lines), plus the exact names of any new symbols, imports, or signatures.
- Address ONLY the request; do not widen scope. List files in the order to edit them.
- Do not write code blocks or diffs — describe the changes in words.
End with a line containing exactly: PLAN COMPLETE";

pub const EDITOR_INSTRUCTION: &'static str = "EDITOR MODE. Apply the PLAN below EXACTLY — do not add, drop, or reinterpret any
change that is not in the plan. Use edit_file (copy old_string character-for-
character from the file, including nearby unique lines so it matches ONE occurrence)
and write_file for brand-new files. If a planned edit cannot be anchored to the
file, re-read the file with read_file and try again rather than guessing. When the
edits are done and the user asked to run or verify, call bash and report the REAL
output. Reply with exactly DONE when finished and verified.";

pub const PLAN_MARKER: &'static str = "PLAN COMPLETE";
pub const ARCHITECT_NOTICE: &'static str = "◆ architect: reading the code and planning (read-only)…";
pub const EDITOR_NOTICE: &'static str = "◆ editor: applying the plan…";
pub const NO_PLAN_NOTICE: &'static str = "architect produced no plan — running the task directly instead.";

/// The plan without a trailing `PLAN COMPLETE` line: the last occurrence of
/// the marker is cut (with the blank space before it) only when nothing but
/// whitespace follows it.
pub open spec fn stripped_plan(plan: Seq<char>) -> Seq<char> {
    let out = trim_end(plan);
    match rfind(out, PLAN_MARKER@) {
        Some(idx) => if trim(out.skip(idx)) == PLAN_MARKER@ {
            trim_end(out.take(idx))
        } else {
            out
        },
        None => out,
    }
}

proof fn lemma_rfind_upto_bounds(s: Seq<char>, p: Seq<char>, i: int)
    ensures
        rfind_upto(s, p, i) matches Some(k) ==> 0 <= k <= i && match_at(s, k, p),
    decreases i + 1,
{
    if i >= 0 && !match_at(s, i, p) {
        lemma_rfind_upto_bounds(s, p, i - 1);
    }
}

/// The last index at or below `i` where `p` occurs.
fn rfind_upto_exec(s: &Vec<char>, p: &Vec<char>, i: usize) -> (r: Option<usize>)
    ensures
        match r {
            Some(k) => rfind_upto(s@, p@, i as int) == Some(k as int),
            None => rfind_upto(s@, p@, i as int) is None,
        },
{
    let mut k = i;
    loop
        invariant
            k <= i,
            rfind_upto(s@, p@, i as int) == rfind_upto(s@, p@, k as int),
        decreases k,
    {
        if match_at_exec(s, k, p) {
            return Some(k);
        }
        if k == 0 {
            return None;
        }
        k -= 1;
    }
}

/// Drop a trailing "PLAN COMPLETE" sentinel (and surrounding blank lines).
pub fn strip_plan_marker(plan: &str) -> (r: String)
    ensures
        r@ == stripped_plan(plan@),
{
    let pc = chars_of(plan);
    let out = trim_end_exec(&pc);
    let marker = chars_of(PLAN_MARKER);
    proof {
        reveal_strlit("PLAN COMPLETE");
    }
    if out.len() < marker.len() {
        assert(rfind(out@, PLAN_MARKER@) is None);
        return string_of(&out);
    }
    match rfind_upto_exec(&out, &marker, out.len() - marker.len()) {
        Some(idx) => {
            proof {
                lemma_rfind_upto_bounds(out@, marker@, (out.len() - marker.len()) as int);
            }
            let tail = slice_of(&out, idx, out.len());
            assert(tail@ =~= out@.skip(idx as int));
            let t = trim_exec(&tail);
            if crate::text::chars_eq(&t, &marker) {
                let head = slice_of(&out, 0, idx);
                assert(head@ =~= out@.take(idx as int));
                let h = trim_end_exec(&head);
                string_of(&h)
            } else {
                string_of(&out)
            }
        },
        None => string_of(&out),
    }
}

/// The request for the planning pass.
pub open spec fn architect_prompt(task: Seq<char>) -> Seq<char> {
    ARCHITECT_INSTRUCTION@ + "\n\n# REQUEST\n"@ + task
}

/// The request for the editing pass.
pub open spec fn editor_prompt(plan: Seq<char>) -> Seq<char> {
    EDITOR_INSTRUCTION@ + "\n\n# PLAN (apply exactly)\n"@ + plan
}

/// A plan-then-edit run in progress: the task and the settings to restore
/// after the planning pass.
pub struct ArchitectRun {
    pub task: String,
    pub prev_level: SandboxLevel,
    pub prev_autonomous: bool,
}

/// How the second pass starts.
#[derive(Debug, PartialEq, Eq, Structural)]
pub enum EditorStart {
    /// The plan was handed to the editor.
    Apply,
    /// No plan came back: the task itself was asked for directly.
    Direct,
}

/// Prepare the planning pass: read-only, no nudges toward tools (the plan
/// is prose), and the planning request as the last user message. Run a
/// turn after this, then call [`begin_editor`].
pub fn begin_architect(agent: &mut Agent, task: &str) -> (r: ArchitectRun)
    ensures
        r.task@ == task@,
        r.prev_level == old(agent).cfg().level,
        r.prev_autonomous == old(agent).is_autonomous(),
        final(agent).cfg() == (Cfg { level: SandboxLevel::ReadOnly, ..old(agent).cfg() }),
        final(agent).context().sandbox == SandboxLevel::ReadOnly,
        !final(agent).is_autonomous(),
        final(agent).history() == old(agent).history().push(simple_view(Role::User, architect_prompt(task@))),
{
    let prev_level = agent.sandbox_level();
    let prev_autonomous = agent.autonomous();
    agent.set_sandbox(SandboxLevel::ReadOnly);
    agent.set_autonomous(false);
    let mut p = chars_of(ARCHITECT_INSTRUCTION);
    push_str(&mut p, "\n\n# REQUEST\n");
    push_str(&mut p, task);
    let prompt = string_of(&p);
    agent.push_user(prompt.as_str());
    ArchitectRun { task: String::from_str(task), prev_level, prev_autonomous }
}

/// After the planning turn: restore the settings, then hand the plan (the
/// last assistant message, trimmed and without its end marker) to the
/// editor, or, when there is none, ask for the task directly. Run a turn
/// after this.
pub fn begin_editor(agent: &mut Agent, run: ArchitectRun) -> (r: EditorStart)
    ensures
        final(agent).cfg() == (Cfg { level: run.prev_level, ..old(agent).cfg() }),
        final(agent).context().sandbox == run.prev_level,
        final(agent).is_autonomous() == run.prev_autonomous,
        ({
            let plan = stripped_plan(trim(match last_assistant(old(agent).history()) {
                Some(t) => t,
                None => Seq::empty(),
            }));
            if plan.len() == 0 {
                &&& r == EditorStart::Direct
                &&& final(agent).history() == old(agent).history().push(simple_view(Role::User, run.task@))
            } else {
                &&& r == EditorStart::Apply
                &&& final(agent).history() == old(agent).history().push(simple_view(Role::User, editor_prompt(plan)))
            }
        }),
{
    let last = agent.last_assistant_text();
    let text = match last {
        Some(t) => t,
        None => String::new(),
    };
    proof {
        assert(text@ == match last_assistant(old(agent).history()) {
            Some(t) => t,
            None => Seq::empty(),
        });
    }
    agent.set_sandbox(run.prev_level);
    agent.set_autonomous(run.prev_autonomous);
    let tc = chars_of(text.as_str());
    let trimmed = trim_exec(&tc);
    let ts = string_of(&trimmed);
    let plan = strip_plan_marker(ts.as_str());
    if plan.as_str().is_empty() {
        agent.push_user(run.task.as_str());
        EditorStart::Direct
    } else {
        let mut p = chars_of(EDITOR_INSTRUCTION);
        push_str(&mut p, "\n\n# PLAN (apply exactly)\n");
        push_str(&mut p, plan.as_str());
        let prompt = string_of(&p);
        agent.push_user(prompt.as_str());
        EditorStart::Apply
    }
}

} // verus!
