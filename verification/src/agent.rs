//! The agentic loop, as a state machine: the library decides, the front end
//! performs. A turn asks the model, dispatches its tool calls through the
//! approval policy, feeds the results back and repeats until the model stops
//! calling tools or a guard fires (turn limit, loop detection), with bounded
//! nudges back to tool use.

use vstd::prelude::*;
use crate::config::SandboxLevel;
use crate::engine::{
    calls_view, copy_calls, message_view, messages_view, opt_view, simple_view, tool_result_view,
    copy_opt_string, CallView, ChatMessage, MessageView, Role, ToolCall,
};
use crate::json::{json_parse, parse_json, Json};
use crate::permissions::{decision, Decision, Policy};
use crate::text::{strings_view, 
    chars_eq, chars_of, contains, contains_exec, decimal, decimal_exec, ends_with, ends_with_exec,
    lowercase, push_all, push_str, string_of, to_lowercase, trim, trim_exec, truncate_bytes,
    truncated, utf8_len,
};
use crate::toolcall::{extract, native_calls, numbered_calls, reindexed, text_calls};
use crate::tools::{
    lookup, names_debug, summary_text, tool_mutating, tool_name, Registry, ToolContext, ToolKind,
    ToolOutput,
};

verus! {

// ---------------------------------------------------------------------------
// Heuristics on text
// ---------------------------------------------------------------------------

pub open spec fn verify_cues() -> Seq<Seq<char>> {
    seq!["run "@, "verify"@, "test"@, "execute"@, "check that"@, "make sure"@, "confirm"@]
}

/// The request asks to run, verify or test something: its lowercase form
/// contains one of the cue words.
pub open spec fn asks_verification(s: Seq<char>) -> bool {
    exists|i: int| 0 <= i < verify_cues().len() && contains(lowercase(s), #[trigger] verify_cues()[i])
}

/// Whether any of `cues` occurs in `s`.
fn any_contained(s: &Vec<char>, cues: &Vec<&str>, Ghost(spec_cues): Ghost<Seq<Seq<char>>>) -> (r: bool)
    requires
        cues@.len() == spec_cues.len(),
        forall|i: int| 0 <= i < cues@.len() ==> (#[trigger] cues@[i])@ == spec_cues[i],
    ensures
        r == exists|i: int| 0 <= i < spec_cues.len() && contains(s@, #[trigger] spec_cues[i]),
{
    let mut i: usize = 0;
    while i < cues.len()
        invariant
            i <= cues.len(),
            cues@.len() == spec_cues.len(),
            forall|i: int| 0 <= i < cues@.len() ==> (#[trigger] cues@[i])@ == spec_cues[i],
            forall|j: int| 0 <= j < i ==> !contains(s@, #[trigger] spec_cues[j]),
        decreases cues.len() - i,
    {
        let c = chars_of(cues[i]);
        if contains_exec(s, &c) {
            assert(contains(s@, spec_cues[i as int]));
            return true;
        }
        i += 1;
    }
    false
}

/// Did the user's request ask us to run/verify/test something?
pub fn mentions_verification(s: &str) -> (r: bool)
    ensures
        r == asks_verification(s@),
{
    let l = to_lowercase(s);
    let lc = chars_of(l.as_str());
    let cues: Vec<&str> = vec!["run ", "verify", "test", "execute", "check that", "make sure", "confirm"];
    assert(cues@.len() == verify_cues().len());
    any_contained(&lc, &cues, Ghost(verify_cues()))
}

pub open spec fn unfinished_cues() -> Seq<Seq<char>> {
    seq![
        "let's"@, "let me"@, "i'll"@, "i will"@, "next,"@, "now,"@, "now let"@, "we need to"@,
        "then run"@, "run the"@, "please run"@, "you can run"@, "need to"@, "i need"@,
        "to read"@, "to check"@, "to find"@, "to determine"@, "to do this"@, "going to"@,
        "i should"@, "to fix"@, "to update"@, "to analyze"@, "to inspect"@, "first i"@,
    ]
}

/// Characters dropped from the end before looking for a final "done".
pub open spec fn is_end_punct(c: char) -> bool {
    c == '.' || c == '!' || c == ' '
}

/// Number of trailing `.`, `!` and spaces.
pub open spec fn trailing_punct(s: Seq<char>) -> nat
    decreases s.len(),
{
    if s.len() > 0 && is_end_punct(s.last()) {
        1 + trailing_punct(s.drop_last())
    } else {
        0
    }
}

/// `s.trim_end_matches(['.', '!', ' '])`.
pub open spec fn strip_end_punct(s: Seq<char>) -> Seq<char> {
    s.subrange(0, s.len() - trailing_punct(s))
}

/// The model narrated an action (and stopped) instead of doing it: not
/// empty, not ending in "done", and showing a code fence or a cue phrase.
pub open spec fn narrates(text: Seq<char>) -> bool {
    if text.len() == 0 {
        false
    } else if ends_with(strip_end_punct(lowercase(text)), "done"@) {
        false
    } else if contains(text, "```"@) {
        true
    } else {
        exists|i: int|
            0 <= i < unfinished_cues().len() && contains(lowercase(text), #[trigger] unfinished_cues()[i])
    }
}

/// Heuristic: did the model narrate an action (and stop) instead of doing it?
pub fn looks_unfinished(text: &str) -> (r: bool)
    ensures
        r == narrates(text@),
{
    let tc = chars_of(text);
    if tc.len() == 0 {
        return false;
    }
    let lower = to_lowercase(text);
    let lc = chars_of(lower.as_str());
    let mut n = lc.len();
    assert(lc@.subrange(0, lc.len() as int) =~= lc@);
    while n > 0 && (lc[n - 1] == '.' || lc[n - 1] == '!' || lc[n - 1] == ' ')
        invariant
            n <= lc.len(),
            trailing_punct(lc@) == (lc.len() - n) + trailing_punct(lc@.subrange(0, n as int)),
        decreases n,
    {
        assert(lc@.subrange(0, n as int).drop_last() =~= lc@.subrange(0, n - 1));
        n -= 1;
    }
    let stripped = crate::text::slice_of(&lc, 0, n);
    let done = chars_of("done");
    if ends_with_exec(&stripped, &done) {
        return false;
    }
    let fence = chars_of("```");
    if contains_exec(&tc, &fence) {
        return true;
    }
    let cues: Vec<&str> = vec![
        "let's", "let me", "i'll", "i will", "next,", "now,", "now let", "we need to",
        "then run", "run the", "please run", "you can run", "need to", "i need",
        "to read", "to check", "to find", "to determine", "to do this", "going to",
        "i should", "to fix", "to update", "to analyze", "to inspect", "first i",
    ];
    assert(cues@.len() == unfinished_cues().len());
    any_contained(&lc, &cues, Ghost(unfinished_cues()))
}

/// `s` cut to at most `max` bytes at a character boundary, with `…`
/// appended when cut.
pub fn truncate(s: &str, max: usize) -> (r: String)
    requires
        max < usize::MAX - 4,
    ensures
        r@ == truncated(s@, max as nat, "…"@),
{
    let c = chars_of(s);
    let t = truncate_bytes(&c, max, "…");
    string_of(&t)
}


// ---------------------------------------------------------------------------
// Messages the loop writes
// ---------------------------------------------------------------------------

pub const NUDGE_FAILED: &'static str = "Your last tool call FAILED — see the error message above. The change has NOT been applied yet. Do NOT echo or repeat the error text. Read it, correct your arguments (for an ambiguous edit, include the preceding `def` line in old_string so it matches one occurrence), and call the tool again now.";
pub const NUDGE_VERIFY: &'static str = "You have not actually run anything yet. Before finishing you MUST call the `bash` tool to run/verify the result and show its real output. Do it now, and report the ACTUAL output.";
pub const NUDGE_ACT: &'static str = "Do not describe actions or show file/command text. Take the next step NOW by calling the appropriate tool (edit_file, write_file, bash, …). If the task is fully complete AND you verified it by running it, reply with exactly: DONE";
pub const ECHO_NOTICE: &'static str = "Model kept repeating tool output and could not progress — stopping. Use interactive approval mode or a larger model (e.g. qwen3-coder-30b).";
pub const NO_RESPONSE: &'static str = "(no response)";
pub const DENIED: &'static str = "Denied by sandbox policy (read-only mode).";
pub const DECLINED: &'static str = "User declined this action.";
pub const DECLINED_NOTE: &'static str = "Note: User declined this action. Do not retry it; choose another approach or ask the user.";
pub const LOOP_NOTICE: &'static str = "Detected repeated identical tool calls — stopping to avoid a loop.";
pub const LOOP_REQUEST: &'static str = "You are repeating the same tool call without progress. Stop, summarize what you have done and what is blocking you, and ask me how to proceed.";

/// Cap on a tool result before it goes back into context (bytes).
pub open spec fn max_tool_result_bytes() -> nat {
    16000
}

/// Cap on a tool result shown in the UI (bytes).
pub open spec fn max_shown_bytes() -> nat {
    4000
}

/// Recent call signatures kept for loop detection.
pub open spec fn recent_window() -> nat {
    6
}

/// Nudges allowed per request in autonomous mode.
pub open spec fn nudge_budget() -> nat {
    3
}

pub open spec fn unknown_tool_text(name: Seq<char>, tools: Seq<ToolKind>) -> Seq<char> {
    "Error: unknown tool '"@ + name + "'. Available tools: "@ + names_debug(tools)
}

pub open spec fn bad_args_text(err: Seq<char>, raw: Seq<char>) -> Seq<char> {
    "Error: arguments were not valid JSON ("@ + err + "). You sent: "@ + raw
}

pub open spec fn limit_text(max_turns: nat) -> Seq<char> {
    "Reached the "@ + decimal(max_turns) + "-turn limit; stopping."@
}

pub open spec fn confirm_prompt(summary: Seq<char>) -> Seq<char> {
    "Allow "@ + summary + "?"@
}

/// A tool result as it goes back into context.
pub open spec fn capped_result(content: Seq<char>) -> Seq<char> {
    truncated(content, max_tool_result_bytes(), "\n[result truncated]"@)
}

// ---------------------------------------------------------------------------
// The state machine, specified
// ---------------------------------------------------------------------------

/// What the front end shows.
#[derive(Debug)]
pub enum UiEvent {
    Notice(String),
    ToolStart { name: String, summary: String },
    ToolResult { name: String, output: String, is_error: bool },
}

pub enum EventV {
    Notice(Seq<char>),
    ToolStart(Seq<char>, Seq<char>),
    ToolResult(Seq<char>, Seq<char>, bool),
}

pub open spec fn event_view(e: UiEvent) -> EventV {
    match e {
        UiEvent::Notice(t) => EventV::Notice(t@),
        UiEvent::ToolStart { name, summary } => EventV::ToolStart(name@, summary@),
        UiEvent::ToolResult { name, output, is_error } => EventV::ToolResult(name@, output@, is_error),
    }
}

pub open spec fn events_view(es: Seq<UiEvent>) -> Seq<EventV> {
    es.map_values(|e: UiEvent| event_view(e))
}

/// What the front end must do next.
#[derive(Debug)]
pub enum Next {
    /// Stream a completion for the current history and hand the reply to
    /// [`Agent::on_reply`].
    CallModel,
    /// Ask the user with this prompt (showing the pending call's preview) and
    /// hand the answer to [`Agent::on_confirm`].
    Confirm(String),
    /// Run the pending tool and hand its result to [`Agent::on_tool_output`].
    RunTool,
    /// Stream one last completion for the current history (its reply is
    /// not recorded); the request is then finished.
    Summarize,
    /// The request is finished.
    Done,
}

pub enum NextV {
    CallModel,
    Confirm(Seq<char>),
    RunTool,
    Summarize,
    Done,
}

pub open spec fn next_view(n: Next) -> NextV {
    match n {
        Next::CallModel => NextV::CallModel,
        Next::Confirm(p) => NextV::Confirm(p@),
        Next::RunTool => NextV::RunTool,
        Next::Summarize => NextV::Summarize,
        Next::Done => NextV::Done,
    }
}

/// The result of one step: what to show, then what to do.
#[derive(Debug)]
pub struct Step {
    pub events: Vec<UiEvent>,
    pub next: Next,
}

/// The fixed inputs of a turn.
pub struct Cfg {
    pub tools: Seq<ToolKind>,
    pub level: SandboxLevel,
    pub yolo: bool,
    pub approved: Seq<Seq<char>>,
    pub max_turns: nat,
}

/// The state of a turn in progress.
pub struct TurnV {
    /// Signatures of the most recent calls (at most six).
    pub recent: Seq<Seq<char>>,
    pub nudges: nat,
    /// The latest tool call failed (drives error-recovery nudges).
    pub pending_error: bool,
    /// The request asked to run/verify something.
    pub needs_verify: bool,
    pub bash_ran: bool,
    /// Model calls made so far.
    pub turns: nat,
    /// The batch of calls being answered, and the index of the next one.
    pub calls: Seq<CallView>,
    pub next_call: nat,
    pub loop_detected: bool,
    /// The tool and arguments of the call awaiting approval or its run.
    pub pending: Option<(ToolKind, Json)>,
}

pub struct Outcome {
    pub history: Seq<MessageView>,
    pub st: TurnV,
    pub events: Seq<EventV>,
    pub next: NextV,
}

pub open spec fn count_eq(s: Seq<Seq<char>>, x: Seq<char>) -> nat
    decreases s.len(),
{
    if s.len() == 0 {
        0
    } else {
        (if s.last() == x { 1nat } else { 0nat }) + count_eq(s.drop_last(), x)
    }
}

/// The window after recording `sig`: the last six signatures.
pub open spec fn push_recent(recent: Seq<Seq<char>>, sig: Seq<char>) -> Seq<Seq<char>> {
    let r = recent.push(sig);
    if r.len() > recent_window() {
        r.drop_first()
    } else {
        r
    }
}

/// The signature of a call: `name:arguments`.
pub open spec fn signature(c: CallView) -> Seq<char> {
    c.name + ":"@ + c.arguments
}

/// The arguments a call is run with: `{}` for blank arguments, else the
/// parsed JSON (or the parse error).
pub open spec fn args_of(raw: Seq<char>) -> Result<Json, Seq<char>> {
    if trim(raw).len() == 0 {
        json_parse("{}"@)
    } else {
        json_parse(raw)
    }
}

/// Ask the model again if turns remain, else stop at the limit.
pub open spec fn next_model_call(cfg: Cfg, h: Seq<MessageView>, st: TurnV, ev: Seq<EventV>) -> Outcome {
    if st.turns < cfg.max_turns {
        Outcome { history: h, st: TurnV { turns: st.turns + 1, ..st }, events: ev, next: NextV::CallModel }
    } else {
        Outcome {
            history: h,
            st,
            events: ev.push(EventV::Notice(limit_text(cfg.max_turns))),
            next: NextV::Done,
        }
    }
}

/// After the batch: stop with a summary request on a detected loop, else
/// go on.
pub open spec fn finish_batch(cfg: Cfg, h: Seq<MessageView>, st: TurnV, ev: Seq<EventV>) -> Outcome {
    if st.loop_detected {
        Outcome {
            history: h.push(simple_view(Role::User, LOOP_REQUEST@)),
            st,
            events: ev.push(EventV::Notice(LOOP_NOTICE@)),
            next: NextV::Summarize,
        }
    } else {
        next_model_call(cfg, h, st, ev)
    }
}

/// Answer the current call with `msg` and move on to the next one.
pub open spec fn answered(st: TurnV) -> TurnV {
    TurnV { next_call: st.next_call + 1, pending: None, ..st }
}

/// Work through the calls of the batch from `st.next_call` on, until one
/// must be approved or run, or the batch is done.
pub open spec fn drain(cfg: Cfg, h: Seq<MessageView>, st: TurnV, ev: Seq<EventV>) -> Outcome
    decreases st.calls.len() - st.next_call,
{
    if st.next_call >= st.calls.len() {
        finish_batch(cfg, h, st, ev)
    } else {
        let c = st.calls[st.next_call as int];
        let sig = signature(c);
        let recent = push_recent(st.recent, sig);
        let st1 = TurnV {
            recent,
            loop_detected: st.loop_detected || count_eq(recent, sig) >= 3,
            pending_error: true,
            ..st
        };
        match lookup(cfg.tools, c.name) {
            None => {
                let msg = unknown_tool_text(c.name, cfg.tools);
                drain(
                    cfg,
                    h.push(tool_result_view(c.id, c.name, msg)),
                    answered(st1),
                    ev.push(EventV::ToolResult(c.name, msg, true)),
                )
            },
            Some(tool) => match args_of(c.arguments) {
                Err(e) => {
                    let msg = bad_args_text(e, c.arguments);
                    drain(
                        cfg,
                        h.push(tool_result_view(c.id, c.name, msg)),
                        answered(st1),
                        ev.push(EventV::ToolResult(c.name, msg, true)),
                    )
                },
                Ok(a) => {
                    let summary = summary_text(tool, a);
                    let ev1 = ev.push(EventV::ToolStart(c.name, summary));
                    match decision(
                        cfg.level,
                        cfg.yolo,
                        tool_mutating(tool),
                        cfg.approved.contains(tool_name(tool)),
                    ) {
                        Decision::Deny => drain(
                            cfg,
                            h.push(tool_result_view(c.id, c.name, "Error: "@ + DENIED@)),
                            answered(st1),
                            ev1.push(EventV::ToolResult(c.name, DENIED@, true)),
                        ),
                        Decision::Ask => Outcome {
                            history: h,
                            st: TurnV { pending: Some((tool, a)), ..st1 },
                            events: ev1,
                            next: NextV::Confirm(confirm_prompt(summary)),
                        },
                        Decision::Allow => Outcome {
                            history: h,
                            st: TurnV { pending: Some((tool, a)), ..st1 },
                            events: ev1,
                            next: NextV::RunTool,
                        },
                    }
                },
            },
        }
    }
}

/// The calls the loop finds in a reply (see [`crate::toolcall::extract`]).
pub open spec fn reply_calls(m: ChatMessage) -> Seq<CallView> {
    match native_calls(m) {
        Some(tc) => reindexed(tc),
        None => numbered_calls(text_calls(reply_content(m))),
    }
}

pub open spec fn reply_content(m: ChatMessage) -> Seq<char> {
    match m.content {
        Some(c) => c@,
        None => Seq::empty(),
    }
}

/// The prose the loop keeps from a reply.
pub open spec fn reply_text(m: ChatMessage) -> Option<Seq<char>> {
    let content = reply_content(m);
    let prose = if trim(content).len() == 0 {
        None::<Seq<char>>
    } else {
        Some(content)
    };
    match native_calls(m) {
        Some(_) => prose,
        None => if text_calls(content).len() == 0 {
            prose
        } else {
            None
        },
    }
}

/// The normalized assistant message recorded for a reply.
pub open spec fn recorded_reply(text: Option<Seq<char>>, calls: Seq<CallView>) -> MessageView {
    MessageView {
        role: Role::Assistant,
        content: text,
        tool_calls: if calls.len() == 0 {
            None
        } else {
            Some(calls)
        },
        tool_call_id: None,
        name: None,
    }
}

/// Handle a reply that has no tool calls: nudge back to tool use when the
/// budget allows and the model failed, skipped verification, echoed tool
/// output or narrated; else finish.
pub open spec fn on_prose(cfg: Cfg, h: Seq<MessageView>, st: TurnV, text: Option<Seq<char>>) -> Outcome {
    let trimmed = trim(match text {
        Some(t) => t,
        None => Seq::empty(),
    });
    let echoing = contains(trimmed, "<tool_response>"@) || contains(trimmed, "</tool_response>"@);
    let want_verify = st.needs_verify && !st.bash_ran;
    if st.nudges > 0 && (st.pending_error || want_verify || echoing || narrates(trimmed)) {
        let nudge = if st.pending_error || echoing {
            NUDGE_FAILED@
        } else if want_verify {
            NUDGE_VERIFY@
        } else {
            NUDGE_ACT@
        };
        next_model_call(
            cfg,
            h.push(simple_view(Role::User, nudge)),
            TurnV { nudges: (st.nudges - 1) as nat, ..st },
            Seq::empty(),
        )
    } else {
        Outcome {
            history: h,
            st,
            events: if echoing {
                seq![EventV::Notice(ECHO_NOTICE@)]
            } else if trimmed.len() == 0 {
                seq![EventV::Notice(NO_RESPONSE@)]
            } else {
                Seq::empty()
            },
            next: NextV::Done,
        }
    }
}

/// Record a reply, then either handle its prose or work through its calls.
pub open spec fn on_reply_spec(cfg: Cfg, h: Seq<MessageView>, st: TurnV, reply: ChatMessage) -> Outcome {
    let calls = reply_calls(reply);
    let text = reply_text(reply);
    let h1 = h.push(recorded_reply(text, calls));
    if calls.len() == 0 {
        on_prose(cfg, h1, st, text)
    } else {
        drain(
            cfg,
            h1,
            TurnV { calls, next_call: 0, loop_detected: false, pending: None, ..st },
            Seq::empty(),
        )
    }
}

/// The user answered the approval prompt.
pub open spec fn on_confirm_spec(cfg: Cfg, h: Seq<MessageView>, st: TurnV, approved: bool) -> Outcome {
    if approved {
        Outcome { history: h, st, events: Seq::empty(), next: NextV::RunTool }
    } else {
        let c = st.calls[st.next_call as int];
        drain(
            cfg,
            h.push(tool_result_view(c.id, c.name, DECLINED_NOTE@)),
            answered(st),
            seq![EventV::ToolResult(c.name, DECLINED@, true)],
        )
    }
}

/// The text and error flag of a tool run (a failure to run is an error
/// result `Error: …`).
pub open spec fn output_parts(res: Result<ToolOutput, String>) -> (Seq<char>, bool) {
    match res {
        Ok(o) => (o.content@, o.is_error),
        Err(e) => ("Error: "@ + e@, true),
    }
}

/// The pending tool ran.
pub open spec fn on_output_spec(cfg: Cfg, h: Seq<MessageView>, st: TurnV, res: Result<ToolOutput, String>) -> Outcome {
    let c = st.calls[st.next_call as int];
    let (content, is_error) = output_parts(res);
    drain(
        cfg,
        h.push(tool_result_view(c.id, c.name, capped_result(content))),
        answered(TurnV { pending_error: is_error, bash_ran: st.bash_ran || c.name == "bash"@, ..st }),
        seq![EventV::ToolResult(c.name, truncated(content, max_shown_bytes(), "…"@), is_error)],
    )
}


// ---------------------------------------------------------------------------
// The agent and the turn state
// ---------------------------------------------------------------------------

/// The conversation, tools and policy of an agent session.
pub struct Agent {
    registry: Registry,
    policy: Policy,
    ctx: ToolContext,
    messages: Vec<ChatMessage>,
    max_turns: usize,
    /// When true, nudge the model back to tool use if it narrates instead of acting.
    autonomous: bool,
}

/// The state of one request in progress (see [`Agent::start_turn`]).
pub struct TurnState {
    recent: Vec<String>,
    nudges: u32,
    pending_error: bool,
    needs_verify: bool,
    bash_ran: bool,
    turns: usize,
    calls: Vec<ToolCall>,
    next_call: usize,
    loop_detected: bool,
    pending: Option<(ToolKind, Json)>,
}

impl TurnState {
    pub closed spec fn view(&self) -> TurnV {
        TurnV {
            recent: strings_view(self.recent@),
            nudges: self.nudges as nat,
            pending_error: self.pending_error,
            needs_verify: self.needs_verify,
            bash_ran: self.bash_ran,
            turns: self.turns as nat,
            calls: calls_view(self.calls@),
            next_call: self.next_call as nat,
            loop_detected: self.loop_detected,
            pending: self.pending,
        }
    }

    /// The tool and arguments of the call awaiting approval or its run.
    pub fn pending_tool(&self) -> (r: Option<(ToolKind, &Json)>)
        ensures
            match r {
                Some((k, a)) => self.view().pending == Some((k, *a)),
                None => self.view().pending is None,
            },
    {
        match &self.pending {
            Some((k, a)) => Some((*k, a)),
            None => None,
        }
    }
}

/// The content of the last user message.
pub open spec fn last_user(h: Seq<MessageView>) -> Option<Seq<char>>
    decreases h.len(),
{
    if h.len() == 0 {
        None
    } else if h.last().role == Role::User {
        h.last().content
    } else {
        last_user(h.drop_last())
    }
}

/// The content of the last assistant message.
pub open spec fn last_assistant(h: Seq<MessageView>) -> Option<Seq<char>>
    decreases h.len(),
{
    if h.len() == 0 {
        None
    } else if h.last().role == Role::Assistant {
        h.last().content
    } else {
        last_assistant(h.drop_last())
    }
}

/// The state a request starts in.
pub open spec fn initial_turn(h: Seq<MessageView>, autonomous: bool) -> TurnV {
    TurnV {
        recent: Seq::empty(),
        nudges: if autonomous { nudge_budget() } else { 0 },
        pending_error: false,
        needs_verify: match last_user(h) {
            Some(t) => asks_verification(t),
            None => false,
        },
        bash_ran: false,
        turns: 0,
        calls: Seq::empty(),
        next_call: 0,
        loop_detected: false,
        pending: None,
    }
}

/// `a` and `b` have the same tools, policy, context and settings.
pub open spec fn same_setup(a: Agent, b: Agent) -> bool {
    &&& a.cfg() == b.cfg()
    &&& a.context() == b.context()
    &&& a.is_autonomous() == b.is_autonomous()
}

/// The agent, turn state and step realize the specified outcome.
pub open spec fn realizes(a: Agent, st: TurnState, r: Step, o: Outcome) -> bool {
    &&& a.history() == o.history
    &&& st.view() == o.st
    &&& events_view(r.events@) == o.events
    &&& next_view(r.next) == o.next
}

/// The batch position of a turn state is consistent: the next call is
/// within the batch, and a pending call is one of it.
pub open spec fn well_formed(st: TurnV) -> bool {
    &&& st.next_call <= st.calls.len()
    &&& (st.pending is Some ==> st.next_call < st.calls.len())
}

/// A step keeps the model calls of a request within `max_turns`.
pub open spec fn keeps_turn_limit(cfg: Cfg, before: TurnV, after: TurnV) -> bool {
    before.turns <= cfg.max_turns ==> after.turns <= cfg.max_turns
}

impl Agent {
    pub closed spec fn cfg(&self) -> Cfg {
        Cfg {
            tools: self.registry.tools@,
            level: self.policy.level,
            yolo: self.policy.yolo,
            approved: self.policy.approved(),
            max_turns: self.max_turns as nat,
        }
    }

    pub closed spec fn history(&self) -> Seq<MessageView> {
        messages_view(self.messages@)
    }

    pub closed spec fn context(&self) -> ToolContext {
        self.ctx
    }

    pub closed spec fn is_autonomous(&self) -> bool {
        self.autonomous
    }

    pub closed spec fn the_policy(&self) -> Policy {
        self.policy
    }

    /// A new agent whose history holds just the system prompt.
    pub fn new(
        registry: Registry,
        policy: Policy,
        workspace: String,
        system_prompt: &str,
        max_turns: usize,
        bash_timeout_ms: u64,
        autonomous: bool,
    ) -> (r: Agent)
        ensures
            r.history() == seq![simple_view(Role::System, system_prompt@)],
            r.cfg().tools == registry.tools@,
            r.cfg().level == policy.level,
            r.cfg().yolo == policy.yolo,
            r.cfg().approved == policy.approved(),
            r.cfg().max_turns == max_turns,
            r.context().workspace == workspace,
            r.context().bash_timeout_ms == bash_timeout_ms,
            r.context().sandbox == policy.level,
            r.is_autonomous() == autonomous,
    {
        let sandbox = policy.level;
        let mut messages: Vec<ChatMessage> = Vec::new();
        messages.push(ChatMessage::system(system_prompt));
        let a = Agent {
            registry,
            policy,
            ctx: ToolContext { workspace, bash_timeout_ms, sandbox },
            messages,
            max_turns,
            autonomous,
        };
        assert(a.history() =~= seq![simple_view(Role::System, system_prompt@)]);
        a
    }

    /// The tool context.
    pub fn ctx(&self) -> (r: &ToolContext)
        ensures
            *r == self.context(),
    {
        &self.ctx
    }

    /// The tools on offer.
    pub fn registry(&self) -> (r: &Registry)
        ensures
            r.tools@ == self.cfg().tools,
    {
        &self.registry
    }

    /// The message history (for the model request and for persistence).
    pub fn messages(&self) -> (r: &Vec<ChatMessage>)
        ensures
            messages_view(r@) == self.history(),
    {
        &self.messages
    }

    /// The permission policy.
    pub fn policy(&self) -> (r: &Policy)
        ensures
            *r == self.the_policy(),
            r.level == self.cfg().level,
            r.yolo == self.cfg().yolo,
            r.approved() == self.cfg().approved,
    {
        &self.policy
    }

    /// Approve a tool for the rest of the session.
    pub fn allow_for_session(&mut self, tool_name: &str)
        ensures
            final(self).history() == old(self).history(),
            final(self).context() == old(self).context(),
            final(self).is_autonomous() == old(self).is_autonomous(),
            final(self).cfg() == (Cfg {
                approved: crate::permissions::with_approval(old(self).cfg().approved, tool_name@),
                ..old(self).cfg()
            }),
            old(self).cfg().approved.no_duplicates() ==> final(self).cfg().approved.no_duplicates(),
    {
        self.policy.allow_for_session(tool_name);
    }

    /// Turn auto-approval on or off.
    pub fn set_yolo(&mut self, yolo: bool)
        ensures
            final(self).history() == old(self).history(),
            final(self).context() == old(self).context(),
            final(self).is_autonomous() == old(self).is_autonomous(),
            final(self).cfg() == (Cfg { yolo, ..old(self).cfg() }),
    {
        self.policy.yolo = yolo;
    }

    /// Append a user message.
    pub fn push_user(&mut self, text: &str)
        ensures
            final(self).history() == old(self).history().push(simple_view(Role::User, text@)),
            same_setup(*final(self), *old(self)),
    {
        let m = ChatMessage::user(text);
        let ghost before = self.history();
        self.messages.push(m);
        assert(self.history() =~= before.push(message_view(m)));
    }

    /// The content of the last user message.
    pub fn last_user_text(&self) -> (r: Option<String>)
        ensures
            opt_view(r) == last_user(self.history()),
    {
        let mut i = self.messages.len();
        assert(self.history().take(i as int) =~= self.history());
        while i > 0
            invariant
                i <= self.messages.len(),
                last_user(self.history()) == last_user(self.history().take(i as int)),
            decreases i,
        {
            let ghost t = self.history().take(i as int);
            assert(t.last() == message_view(self.messages@[i - 1]));
            if self.messages[i - 1].role == Role::User {
                return crate::engine::copy_opt_string(&self.messages[i - 1].content);
            }
            assert(t.drop_last() =~= self.history().take(i - 1));
            i -= 1;
        }
        assert(self.history().take(0) =~= Seq::<MessageView>::empty());
        None
    }

    /// The content of the last assistant message.
    pub fn last_assistant_text(&self) -> (r: Option<String>)
        ensures
            opt_view(r) == last_assistant(self.history()),
    {
        let mut i = self.messages.len();
        assert(self.history().take(i as int) =~= self.history());
        while i > 0
            invariant
                i <= self.messages.len(),
                last_assistant(self.history()) == last_assistant(self.history().take(i as int)),
            decreases i,
        {
            let ghost t = self.history().take(i as int);
            assert(t.last() == message_view(self.messages@[i - 1]));
            if self.messages[i - 1].role == Role::Assistant {
                return crate::engine::copy_opt_string(&self.messages[i - 1].content);
            }
            assert(t.drop_last() =~= self.history().take(i - 1));
            i -= 1;
        }
        assert(self.history().take(0) =~= Seq::<MessageView>::empty());
        None
    }

    /// Reset the conversation, keeping only the system prompt.
    pub fn reset(&mut self)
        ensures
            final(self).history() == old(self).history().take(
                if old(self).history().len() > 0 { 1int } else { 0int },
            ),
            same_setup(*final(self), *old(self)),
    {
        let ghost before = self.history();
        self.messages.truncate(1);
        assert(self.history() =~= before.take(if before.len() > 0 { 1int } else { 0int }));
    }

    /// A copy of the message history (for session persistence).
    pub fn snapshot(&self) -> (r: Vec<ChatMessage>)
        ensures
            messages_view(r@) == self.history(),
    {
        let mut r: Vec<ChatMessage> = Vec::new();
        let mut i: usize = 0;
        while i < self.messages.len()
            invariant
                i <= self.messages.len(),
                messages_view(r@) == self.history().take(i as int),
            decreases self.messages.len() - i,
        {
            let m = self.messages[i].duplicate();
            let ghost before = messages_view(r@);
            r.push(m);
            assert(messages_view(r@) =~= before.push(message_view(m)));
            assert(self.history().take(i + 1) =~= self.history().take(i as int).push(
                message_view(self.messages@[i as int]),
            ));
            i += 1;
        }
        assert(self.history().take(i as int) =~= self.history());
        r
    }

    /// Replace the message history (resume a saved session); an empty
    /// history is ignored.
    pub fn restore(&mut self, msgs: Vec<ChatMessage>)
        ensures
            final(self).history() == (if msgs@.len() > 0 {
                messages_view(msgs@)
            } else {
                old(self).history()
            }),
            same_setup(*final(self), *old(self)),
    {
        if msgs.len() > 0 {
            self.messages = msgs;
        }
    }

    /// Number of non-system messages in context.
    pub fn message_count(&self) -> (r: usize)
        ensures
            r == (if self.history().len() > 0 { self.history().len() - 1 } else { 0 }),
    {
        if self.messages.len() > 0 {
            self.messages.len() - 1
        } else {
            0
        }
    }

    /// Rough token estimate of the context: message bytes / 4.
    pub fn approx_tokens(&self) -> (r: usize)
        requires
            content_bytes(self.history()) <= usize::MAX,
        ensures
            r == content_bytes(self.history()) / 4,
    {
        let mut total: usize = 0;
        let mut i: usize = 0;
        while i < self.messages.len()
            invariant
                i <= self.messages.len(),
                content_bytes(self.history()) <= usize::MAX,
                total == content_bytes(self.history().take(i as int)),
            decreases self.messages.len() - i,
        {
            proof {
                lemma_content_bytes_prefix(self.history(), i + 1);
            }
            assert(self.history().take(i + 1).drop_last() =~= self.history().take(i as int));
            match &self.messages[i].content {
                Some(c) => {
                    proof {
                        assert(self.history()[i as int] == message_view(self.messages@[i as int]));
                        assert(self.history().take(i + 1).last() == self.history()[i as int]);
                        assert(content_bytes(self.history().take(i + 1)) == total + utf8_len(c@));
                    }
                    let cs = chars_of(c.as_str());
                    let n = crate::text::utf8_len_exec(&cs);
                    total = total + n;
                },
                None => {
                    assert(self.history()[i as int] == message_view(self.messages@[i as int]));
                    assert(self.history().take(i + 1).last() == self.history()[i as int]);
                },
            }
            i += 1;
        }
        assert(self.history().take(i as int) =~= self.history());
        total / 4
    }

    /// The sandbox level.
    pub fn sandbox_level(&self) -> (r: SandboxLevel)
        ensures
            r == self.cfg().level,
    {
        self.policy.level
    }

    /// Change the sandbox level (policy and tool context together).
    pub fn set_sandbox(&mut self, level: SandboxLevel)
        ensures
            final(self).cfg() == (Cfg { level, ..old(self).cfg() }),
            final(self).context() == (ToolContext { sandbox: level, ..old(self).context() }),
            final(self).history() == old(self).history(),
            final(self).is_autonomous() == old(self).is_autonomous(),
    {
        self.policy.level = level;
        self.ctx.sandbox = level;
    }

    /// Whether narrate-nudges are on.
    pub fn autonomous(&self) -> (r: bool)
        ensures
            r == self.is_autonomous(),
    {
        self.autonomous
    }

    /// Turn narrate-nudges on or off.
    pub fn set_autonomous(&mut self, on: bool)
        ensures
            final(self).is_autonomous() == on,
            final(self).cfg() == old(self).cfg(),
            final(self).context() == old(self).context(),
            final(self).history() == old(self).history(),
    {
        self.autonomous = on;
    }
}

/// Bytes of message content in a history.
pub open spec fn content_bytes(h: Seq<MessageView>) -> nat
    decreases h.len(),
{
    if h.len() == 0 {
        0
    } else {
        content_bytes(h.drop_last()) + match h.last().content {
            Some(c) => crate::text::utf8_len(c),
            None => 0,
        }
    }
}

proof fn lemma_content_bytes_prefix(h: Seq<MessageView>, i: int)
    requires
        0 <= i <= h.len(),
    ensures
        content_bytes(h.take(i)) <= content_bytes(h),
    decreases h.len() - i,
{
    if i < h.len() {
        lemma_content_bytes_prefix(h, i + 1);
        assert(h.take(i + 1).drop_last() =~= h.take(i));
    } else {
        assert(h.take(i) =~= h);
    }
}


// ---------------------------------------------------------------------------
// The state machine, implemented
// ---------------------------------------------------------------------------

fn string_from(v: &Vec<char>) -> (r: String)
    ensures
        r@ == v@,
{
    string_of(v)
}

fn concat3(a: &str, b: &Vec<char>, c: &str) -> (r: String)
    ensures
        r@ == a@ + b@ + c@,
{
    let mut v = chars_of(a);
    push_all(&mut v, b);
    push_str(&mut v, c);
    string_of(&v)
}

fn push_event(ev: &mut Vec<UiEvent>, e: UiEvent)
    ensures
        events_view(final(ev)@) == events_view(old(ev)@).push(event_view(e)),
{
    let ghost before = events_view(ev@);
    ev.push(e);
    assert(events_view(ev@) =~= before.push(event_view(e)));
}

/// Number of entries of `v` equal to `x`.
fn count_eq_exec(v: &Vec<String>, x: &Vec<char>) -> (r: usize)
    ensures
        r == count_eq(strings_view(v@), x@),
{
    let mut n: usize = 0;
    let mut j: usize = 0;
    while j < v.len()
        invariant
            j <= v.len(),
            n <= j,
            n == count_eq(strings_view(v@).take(j as int), x@),
        decreases v.len() - j,
    {
        let ghost t = strings_view(v@).take(j + 1);
        assert(t.drop_last() =~= strings_view(v@).take(j as int));
        assert(t.last() == v@[j as int]@);
        let e = chars_of(v[j].as_str());
        if chars_eq(&e, x) {
            n += 1;
        }
        j += 1;
    }
    assert(strings_view(v@).take(j as int) =~= strings_view(v@));
    n
}

impl TurnState {
    /// Record the signature of the call being answered.
    fn record_call(&mut self, sig: String)
        ensures
            final(self).view() == (TurnV {
                recent: push_recent(old(self).view().recent, sig@),
                loop_detected: old(self).view().loop_detected || count_eq(
                    push_recent(old(self).view().recent, sig@),
                    sig@,
                ) >= 3,
                pending_error: true,
                ..old(self).view()
            }),
    {
        let sc = chars_of(sig.as_str());
        let ghost before = strings_view(self.recent@);
        self.recent.push(sig);
        assert(strings_view(self.recent@) =~= before.push(sc@));
        if self.recent.len() > 6 {
            let ghost pushed = strings_view(self.recent@);
            self.recent.remove(0);
            assert(strings_view(self.recent@) =~= pushed.drop_first());
        }
        let n = count_eq_exec(&self.recent, &sc);
        if n >= 3 {
            self.loop_detected = true;
        }
        self.pending_error = true;
    }

    /// Move past the current call.
    fn answer(&mut self)
        requires
            old(self).view().next_call < old(self).view().calls.len(),
        ensures
            final(self).view() == answered(old(self).view()),
    {
        let n = self.calls.len();
        assert(self.next_call < n);
        self.next_call = self.next_call + 1;
        self.pending = None;
    }
}

impl Agent {
    fn push_message(&mut self, m: ChatMessage)
        ensures
            final(self).history() == old(self).history().push(message_view(m)),
            same_setup(*final(self), *old(self)),
    {
        let ghost before = self.history();
        self.messages.push(m);
        assert(self.history() =~= before.push(message_view(m)));
    }

    /// Ask the model again if turns remain, else stop at the limit.
    fn next_model_call(&mut self, st: &mut TurnState, ev: Vec<UiEvent>) -> (r: Step)
        requires
            well_formed(old(st).view()),
        ensures
            realizes(
                *final(self),
                *final(st),
                r,
                next_model_call(old(self).cfg(), old(self).history(), old(st).view(), events_view(ev@)),
            ),
            same_setup(*final(self), *old(self)),
            well_formed(final(st).view()),
            keeps_turn_limit(old(self).cfg(), old(st).view(), final(st).view()),
    {
        if st.turns < self.max_turns {
            st.turns = st.turns + 1;
            Step { events: ev, next: Next::CallModel }
        } else {
            let mut ev = ev;
            let mut t = chars_of("Reached the ");
            push_all(&mut t, &decimal_exec(self.max_turns as u128));
            push_str(&mut t, "-turn limit; stopping.");
            push_event(&mut ev, UiEvent::Notice(string_of(&t)));
            Step { events: ev, next: Next::Done }
        }
    }

    /// After the batch: a detected loop ends the request with a summary
    /// request, else the model is asked again.
    fn finish_batch(&mut self, st: &mut TurnState, ev: Vec<UiEvent>) -> (r: Step)
        requires
            well_formed(old(st).view()),
        ensures
            realizes(
                *final(self),
                *final(st),
                r,
                finish_batch(old(self).cfg(), old(self).history(), old(st).view(), events_view(ev@)),
            ),
            same_setup(*final(self), *old(self)),
            well_formed(final(st).view()),
            keeps_turn_limit(old(self).cfg(), old(st).view(), final(st).view()),
    {
        if st.loop_detected {
            let mut ev = ev;
            push_event(&mut ev, UiEvent::Notice(String::from_str(LOOP_NOTICE)));
            self.push_message(ChatMessage::user(LOOP_REQUEST));
            Step { events: ev, next: Next::Summarize }
        } else {
            self.next_model_call(st, ev)
        }
    }

    /// Work through the rest of the batch (see [`drain`]).
    #[verifier::loop_isolation(false)]
    fn drain(&mut self, st: &mut TurnState, ev: Vec<UiEvent>) -> (r: Step)
        requires
            well_formed(old(st).view()),
        ensures
            realizes(
                *final(self),
                *final(st),
                r,
                drain(old(self).cfg(), old(self).history(), old(st).view(), events_view(ev@)),
            ),
            same_setup(*final(self), *old(self)),
            well_formed(final(st).view()),
            keeps_turn_limit(old(self).cfg(), old(st).view(), final(st).view()),
    {
        let ghost cfg = self.cfg();
        let ghost ev0 = events_view(ev@);
        let mut ev = ev;
        loop
            invariant
                cfg == old(self).cfg(),
                same_setup(*self, *old(self)),
                well_formed(st.view()),
                st.view().turns == old(st).view().turns,
                drain(cfg, self.history(), st.view(), events_view(ev@))
                    == drain(cfg, old(self).history(), old(st).view(), ev0),
            decreases st.view().calls.len() - st.view().next_call,
        {
            if st.next_call >= st.calls.len() {
                return self.finish_batch(st, ev);
            }
            let i = st.next_call;
            let ghost c = st.view().calls[i as int];
            assert(c == crate::engine::call_view(st.calls@[i as int]));
            let name = st.calls[i].function.name.clone();
            let id = st.calls[i].id.clone();
            let raw = st.calls[i].function.arguments.clone();
            let raw_c = chars_of(raw.as_str());
            let mut sig = chars_of(name.as_str());
            push_str(&mut sig, ":");
            push_all(&mut sig, &raw_c);
            let ghost h0 = self.history();
            let ghost st0 = st.view();
            st.record_call(string_of(&sig));
            let ghost st1 = st.view();
            assert(sig@ == signature(c));
            match self.registry.get(name.as_str()) {
                None => {
                    let mut t = chars_of("Error: unknown tool '");
                    push_str(&mut t, name.as_str());
                    push_str(&mut t, "'. Available tools: ");
                    let nd = self.registry.names_debug();
                    push_str(&mut t, nd.as_str());
                    let msg = string_of(&t);
                    assert(msg@ == unknown_tool_text(c.name, cfg.tools));
                    push_event(
                        &mut ev,
                        UiEvent::ToolResult { name: name.clone(), output: msg.clone(), is_error: true },
                    );
                    self.push_message(ChatMessage::tool_result(id.as_str(), name.as_str(), msg.as_str()));
                    st.answer();
                },
                Some(tool) => {
                    let tr = trim_exec(&raw_c);
                    let parsed = if tr.len() == 0 {
                        parse_json("{}")
                    } else {
                        parse_json(raw.as_str())
                    };
                    assert(args_of(c.arguments) == match parsed {
                        Ok(j) => Ok::<Json, Seq<char>>(j),
                        Err(e) => Err::<Json, Seq<char>>(e@),
                    });
                    match parsed {
                        Err(e) => {
                            let mut t = chars_of("Error: arguments were not valid JSON (");
                            push_str(&mut t, e.as_str());
                            push_str(&mut t, "). You sent: ");
                            push_all(&mut t, &raw_c);
                            let msg = string_of(&t);
                            push_event(
                                &mut ev,
                                UiEvent::ToolResult { name: name.clone(), output: msg.clone(), is_error: true },
                            );
                            self.push_message(
                                ChatMessage::tool_result(id.as_str(), name.as_str(), msg.as_str()),
                            );
                            st.answer();
                        },
                        Ok(a) => {
                            let summary = tool.summary(&a);
                            push_event(
                                &mut ev,
                                UiEvent::ToolStart { name: name.clone(), summary: summary.clone() },
                            );
                            match self.policy.decide(tool.name(), tool.mutating()) {
                                Decision::Deny => {
                                    let mut t = chars_of("Error: ");
                                    push_str(&mut t, DENIED);
                                    let msg = string_of(&t);
                                    push_event(
                                        &mut ev,
                                        UiEvent::ToolResult {
                                            name: name.clone(),
                                            output: String::from_str(DENIED),
                                            is_error: true,
                                        },
                                    );
                                    self.push_message(
                                        ChatMessage::tool_result(id.as_str(), name.as_str(), msg.as_str()),
                                    );
                                    st.answer();
                                },
                                Decision::Ask => {
                                    let sc = chars_of(summary.as_str());
                                    let prompt = concat3("Allow ", &sc, "?");
                                    st.pending = Some((tool, a));
                                    return Step { events: ev, next: Next::Confirm(prompt) };
                                },
                                Decision::Allow => {
                                    st.pending = Some((tool, a));
                                    return Step { events: ev, next: Next::RunTool };
                                },
                            }
                        },
                    }
                },
            }
        }
    }
}


impl TurnState {
    /// Whether the batch position is consistent (true of every state the
    /// agent hands out).
    pub fn is_consistent(&self) -> (r: bool)
        ensures
            r == well_formed(self.view()),
    {
        self.next_call <= self.calls.len() && (self.pending.is_none() || self.next_call < self.calls.len())
    }
}

impl Agent {
    /// Begin answering the last user message: a fresh turn state and the
    /// first step (a model call, unless `max_turns` is zero).
    pub fn start_turn(&mut self) -> (r: (TurnState, Step))
        ensures
            realizes(
                *final(self),
                r.0,
                r.1,
                next_model_call(
                    old(self).cfg(),
                    old(self).history(),
                    initial_turn(old(self).history(), old(self).is_autonomous()),
                    Seq::empty(),
                ),
            ),
            same_setup(*final(self), *old(self)),
            well_formed(r.0.view()),
            r.0.view().turns <= old(self).cfg().max_turns,
    {
        let needs_verify = match self.last_user_text() {
            Some(t) => mentions_verification(t.as_str()),
            None => false,
        };
        let mut st = TurnState {
            recent: Vec::new(),
            nudges: if self.autonomous { 3 } else { 0 },
            pending_error: false,
            needs_verify,
            bash_ran: false,
            turns: 0,
            calls: Vec::new(),
            next_call: 0,
            loop_detected: false,
            pending: None,
        };
        assert(st.view() =~= initial_turn(self.history(), self.autonomous)) by {
            assert(strings_view(st.recent@) =~= Seq::empty());
            assert(calls_view(st.calls@) =~= Seq::empty());
        }
        let ev: Vec<UiEvent> = Vec::new();
        assert(events_view(ev@) =~= Seq::empty());
        let step = self.next_model_call(&mut st, ev);
        (st, step)
    }

    /// Handle a reply without tool calls (see [`on_prose`]).
    fn on_prose(&mut self, st: &mut TurnState, text: Option<String>) -> (r: Step)
        requires
            well_formed(old(st).view()),
        ensures
            realizes(
                *final(self),
                *final(st),
                r,
                on_prose(old(self).cfg(), old(self).history(), old(st).view(), opt_view(text)),
            ),
            same_setup(*final(self), *old(self)),
            well_formed(final(st).view()),
            keeps_turn_limit(old(self).cfg(), old(st).view(), final(st).view()),
    {
        let t = match &text {
            Some(t) => chars_of(t.as_str()),
            None => Vec::new(),
        };
        let trimmed = trim_exec(&t);
        let open_tag = chars_of("<tool_response>");
        let close_tag = chars_of("</tool_response>");
        let echoing = contains_exec(&trimmed, &open_tag) || contains_exec(&trimmed, &close_tag);
        let want_verify = st.needs_verify && !st.bash_ran;
        let ts = string_of(&trimmed);
        if st.nudges > 0 && (st.pending_error || want_verify || echoing || looks_unfinished(ts.as_str())) {
            let nudge = if st.pending_error || echoing {
                NUDGE_FAILED
            } else if want_verify {
                NUDGE_VERIFY
            } else {
                NUDGE_ACT
            };
            st.nudges = st.nudges - 1;
            self.push_message(ChatMessage::user(nudge));
            let ev: Vec<UiEvent> = Vec::new();
            assert(events_view(ev@) =~= Seq::empty());
            self.next_model_call(st, ev)
        } else {
            let mut ev: Vec<UiEvent> = Vec::new();
            assert(events_view(ev@) =~= Seq::empty());
            if echoing {
                push_event(&mut ev, UiEvent::Notice(String::from_str(ECHO_NOTICE)));
            } else if trimmed.len() == 0 {
                push_event(&mut ev, UiEvent::Notice(String::from_str(NO_RESPONSE)));
            }
            Step { events: ev, next: Next::Done }
        }
    }

    /// The model replied: record the reply, then either finish (or nudge)
    /// when it holds no tool calls, or work through its calls.
    pub fn on_reply(&mut self, st: &mut TurnState, reply: ChatMessage) -> (r: Step)
        requires
            well_formed(old(st).view()),
        ensures
            realizes(
                *final(self),
                *final(st),
                r,
                on_reply_spec(old(self).cfg(), old(self).history(), old(st).view(), reply),
            ),
            same_setup(*final(self), *old(self)),
            well_formed(final(st).view()),
            keeps_turn_limit(old(self).cfg(), old(st).view(), final(st).view()),
    {
        let ex = extract(&reply);
        let has_calls = ex.calls.len() > 0;
        let text = copy_opt_string(&ex.text);
        let recorded = ChatMessage {
            role: Role::Assistant,
            content: ex.text,
            tool_calls: if has_calls {
                Some(copy_calls(&ex.calls))
            } else {
                None
            },
            tool_call_id: None,
            name: None,
        };
        assert(message_view(recorded) == recorded_reply(reply_text(reply), reply_calls(reply)));
        self.push_message(recorded);
        if !has_calls {
            self.on_prose(st, text)
        } else {
            st.pending = None;
            st.next_call = 0;
            st.loop_detected = false;
            st.calls = ex.calls;
            let ev: Vec<UiEvent> = Vec::new();
            assert(events_view(ev@) =~= Seq::empty());
            self.drain(st, ev)
        }
    }

    /// The user answered the approval prompt for the pending call.
    pub fn on_confirm(&mut self, st: &mut TurnState, approved: bool) -> (r: Step)
        requires
            well_formed(old(st).view()),
            old(st).view().pending is Some,
        ensures
            realizes(
                *final(self),
                *final(st),
                r,
                on_confirm_spec(old(self).cfg(), old(self).history(), old(st).view(), approved),
            ),
            same_setup(*final(self), *old(self)),
            well_formed(final(st).view()),
            keeps_turn_limit(old(self).cfg(), old(st).view(), final(st).view()),
    {
        let mut ev: Vec<UiEvent> = Vec::new();
        assert(events_view(ev@) =~= Seq::empty());
        if approved {
            return Step { events: ev, next: Next::RunTool };
        }
        let i = st.next_call;
        let name = st.calls[i].function.name.clone();
        let id = st.calls[i].id.clone();
        push_event(
            &mut ev,
            UiEvent::ToolResult { name: name.clone(), output: String::from_str(DECLINED), is_error: true },
        );
        self.push_message(ChatMessage::tool_result(id.as_str(), name.as_str(), DECLINED_NOTE));
        st.answer();
        self.drain(st, ev)
    }

    /// The pending call ran (or failed to run): record its capped result
    /// and go on with the batch.
    pub fn on_tool_output(&mut self, st: &mut TurnState, res: Result<ToolOutput, String>) -> (r: Step)
        requires
            well_formed(old(st).view()),
            old(st).view().pending is Some,
        ensures
            realizes(
                *final(self),
                *final(st),
                r,
                on_output_spec(old(self).cfg(), old(self).history(), old(st).view(), res),
            ),
            same_setup(*final(self), *old(self)),
            well_formed(final(st).view()),
            keeps_turn_limit(old(self).cfg(), old(st).view(), final(st).view()),
    {
        let i = st.next_call;
        let name = st.calls[i].function.name.clone();
        let id = st.calls[i].id.clone();
        let ghost parts = output_parts(res);
        let (content, is_error) = match res {
            Ok(o) => (o.content, o.is_error),
            Err(e) => {
                let ec = chars_of(e.as_str());
                let mut t = chars_of("Error: ");
                push_all(&mut t, &ec);
                (string_of(&t), true)
            },
        };
        assert(content@ == parts.0 && is_error == parts.1);
        let cc = chars_of(content.as_str());
        let shown = truncate_bytes(&cc, 4000, "…");
        let capped = truncate_bytes(&cc, 16000, "\n[result truncated]");
        st.pending_error = is_error;
        let nc = chars_of(name.as_str());
        let bash = chars_of("bash");
        if chars_eq(&nc, &bash) {
            st.bash_ran = true;
        }
        let mut ev: Vec<UiEvent> = Vec::new();
        assert(events_view(ev@) =~= Seq::empty());
        push_event(&mut ev, UiEvent::ToolResult { name: name.clone(), output: string_of(&shown), is_error });
        self.push_message(ChatMessage::tool_result(id.as_str(), name.as_str(), string_of(&capped).as_str()));
        st.answer();
        self.drain(st, ev)
    }
}


// ---------------------------------------------------------------------------
// Compaction
// ---------------------------------------------------------------------------

pub const COMPACT_SYSTEM: &'static str = "You compress a coding session into a concise hand-off note so work can continue.";
pub const COMPACT_REQUEST: &'static str = "Summarize the conversation below: keep key decisions, file paths, what was done, and the current state / next step.";
pub const SUMMARY_HEADER: &'static str = "[Summary of earlier conversation]\n";

pub open spec fn role_label(r: Role) -> Seq<char> {
    match r {
        Role::User => "User"@,
        Role::Assistant => "Assistant"@,
        Role::Tool => "Tool"@,
        Role::System => "System"@,
    }
}

/// A message as one transcript line (`Role: text`), or nothing when it has
/// no text beyond whitespace.
pub open spec fn transcript_entry(m: MessageView) -> Seq<char> {
    match m.content {
        Some(c) => if trim(c).len() > 0 {
            role_label(m.role) + ": "@ + c + "\n"@
        } else {
            Seq::empty()
        },
        None => Seq::empty(),
    }
}

pub open spec fn transcript(h: Seq<MessageView>) -> Seq<char>
    decreases h.len(),
{
    if h.len() == 0 {
        Seq::empty()
    } else {
        transcript(h.drop_last()) + transcript_entry(h.last())
    }
}

/// The request that asks for the summary.
pub open spec fn compact_prompt(focus: Option<Seq<char>>, convo: Seq<char>) -> Seq<char> {
    let focus_line = match focus {
        Some(f) => " Pay special attention to: "@ + f + "."@,
        None => Seq::empty(),
    };
    COMPACT_REQUEST@ + focus_line + "\n\n"@ + convo
}

impl Agent {
    /// The messages that ask the model to summarize the conversation so far
    /// (all but the system prompt), or nothing when there is not more than
    /// one exchange to compact.
    pub fn compact_request(&self, focus: Option<&str>) -> (r: Option<Vec<ChatMessage>>)
        ensures
            r is None <==> self.history().len() <= 2,
            r matches Some(v) ==> messages_view(v@) == seq![
                simple_view(Role::System, COMPACT_SYSTEM@),
                simple_view(
                    Role::User,
                    compact_prompt(
                        match focus {
                            Some(f) => Some(f@),
                            None => None,
                        },
                        transcript(self.history().skip(1)),
                    ),
                ),
            ],
    {
        if self.messages.len() <= 2 {
            return None;
        }
        let ghost h = self.history();
        let mut convo: Vec<char> = Vec::new();
        let mut i: usize = 1;
        assert(h.skip(1).take(0) =~= Seq::<MessageView>::empty());
        while i < self.messages.len()
            invariant
                1 <= i <= self.messages@.len(),
                h == self.history(),
                convo@ == transcript(h.skip(1).take(i - 1)),
            decreases self.messages.len() - i,
        {
            let ghost t = h.skip(1).take(i as int);
            assert(t.drop_last() =~= h.skip(1).take(i - 1));
            assert(t.last() == message_view(self.messages@[i as int]));
            let m = &self.messages[i];
            match &m.content {
                Some(c) => {
                    let cc = chars_of(c.as_str());
                    let tc = trim_exec(&cc);
                    if tc.len() > 0 {
                        let label = match m.role {
                            Role::User => "User",
                            Role::Assistant => "Assistant",
                            Role::Tool => "Tool",
                            Role::System => "System",
                        };
                        push_str(&mut convo, label);
                        push_str(&mut convo, ": ");
                        push_all(&mut convo, &cc);
                        push_str(&mut convo, "\n");
                    }
                },
                None => {},
            }
            i += 1;
        }
        assert(h.skip(1).take(i - 1) =~= h.skip(1));
        let mut p = chars_of(COMPACT_REQUEST);
        match focus {
            Some(f) => {
                push_str(&mut p, " Pay special attention to: ");
                push_str(&mut p, f);
                push_str(&mut p, ".");
            },
            None => {},
        }
        push_str(&mut p, "\n\n");
        push_all(&mut p, &convo);
        let ghost fv = match focus {
            Some(f) => Some(f@),
            None => None::<Seq<char>>,
        };
        assert(p@ =~= compact_prompt(fv, transcript(h.skip(1))));
        let prompt = string_of(&p);
        let mut v: Vec<ChatMessage> = Vec::new();
        v.push(ChatMessage::system(COMPACT_SYSTEM));
        v.push(ChatMessage::user(prompt.as_str()));
        assert(messages_view(v@) =~= seq![
            simple_view(Role::System, COMPACT_SYSTEM@),
            simple_view(Role::User, prompt@),
        ]);
        Some(v)
    }

    /// Replace the conversation with the system prompt and the summary (as
    /// a user message, trimmed). Returns the summary's length in bytes.
    pub fn apply_summary(&mut self, summary: &str) -> (r: usize)
        requires
            old(self).history().len() > 0,
        ensures
            final(self).history() == seq![
                old(self).history()[0],
                simple_view(Role::User, SUMMARY_HEADER@ + trim(summary@)),
            ],
            r == crate::text::utf8_len(summary@) as usize,
            same_setup(*final(self), *old(self)),
    {
        let system = self.messages[0].duplicate();
        let sc = chars_of(summary);
        let st = trim_exec(&sc);
        let mut t = chars_of(SUMMARY_HEADER);
        push_all(&mut t, &st);
        let text = string_of(&t);
        let mut msgs: Vec<ChatMessage> = Vec::new();
        msgs.push(system);
        msgs.push(ChatMessage::user(text.as_str()));
        self.messages = msgs;
        assert(self.history() =~= seq![
            message_view(system),
            simple_view(Role::User, SUMMARY_HEADER@ + trim(summary@)),
        ]);
        proof {
            crate::text::lemma_str_len(summary);
        }
        summary.len()
    }
}


// ---------------------------------------------------------------------------
// The system prompt
// ---------------------------------------------------------------------------

pub const DEFAULT_SYSTEM: &'static str = "You are localcode, a coding agent that runs fully on the user's own machine. You complete coding tasks by using tools to read and edit files and run commands in the user's workspace. Everything stays on-device.

Workspace root: {WORKSPACE}

Tools available to you: read_file, write_file, edit_file, list_dir, glob, grep, bash, todo_write.

You operate AUTONOMOUSLY. This is the most important rule:
- NEVER ask the user to run a command, open a file, or do a manual step. You have tools (including `bash`) to do everything yourself — use them.
- NEVER print a shell command for the user to run. If something needs running, call the `bash` tool.
- Keep taking actions with tools until the task is fully complete and verified. Only send a message WITHOUT a tool call when you are finished (or genuinely blocked and need a decision from the user).

Choosing tools:
- To inspect or check a file, use `read_file`. Use `list_dir` ONLY for directories, `glob` to find files by pattern, `grep` to search file contents.
- To change existing code, use `edit_file` with an `old_string` copied EXACTLY from the file. To target ONE specific occurrence, include nearby unique lines (such as the function's `def`/declaration line directly above) so the match is unambiguous. Do NOT use `replace_all=true` unless you intend to change EVERY occurrence. `edit_file` fails loudly if `old_string` is not found or is ambiguous — when that happens, re-read the file with `read_file`, copy a larger exact snippet, and try again.
- Use `write_file` only for brand-new files or a complete rewrite.
- Use `bash` for builds, tests, formatters, and git. Keep commands short and non-interactive (no watchers, no servers that don't exit). On macOS/Linux use `python3`, not `python`. Network is disabled in the sandbox — `bash` cannot reach the internet (no installing new packages, no curl/wget).

When a tool returns an error: read the error, correct your approach, and call another tool. Do not give up and do not defer to the user.

Work style:
- Call ONE tool at a time, then wait for its result before the next step.
- For multi-step work, track progress with `todo_write` (call the tool — do not write the list as plain text).
- If the user asked you to run, test, or verify something, you MUST call `bash` to actually do it and see the output BEFORE you finish. Never claim something works unless you ran it and saw it succeed.
- When the task is fully done and verified, give a 1-3 sentence summary.
- Be concise. Don't echo large files back to the user; reference paths and line numbers.
";

/// The system prompt for a workspace: the default one with the workspace
/// path put in for `{WORKSPACE}`.
pub fn system_prompt(workspace: &str) -> (r: String)
    ensures
        r@ == crate::text::replace_all(DEFAULT_SYSTEM@, "{WORKSPACE}"@, workspace@),
{
    let s = chars_of(DEFAULT_SYSTEM);
    let p = chars_of("{WORKSPACE}");
    let w = chars_of(workspace);
    proof {
        reveal_strlit("{WORKSPACE}");
    }
    let out = crate::text::replace_all_exec(&s, &p, &w);
    string_of(&out)
}

} // verus!
