//! What the agent loop promises across its steps: every tool call of a reply
//! is answered by exactly one tool message, in order; a call runs only with
//! the policy's leave; the request stays within its turn limit; nudges only
//! get used up; and a repeated call is caught. The request-level laws carry
//! the first two over a whole request, whatever the model replies, the user
//! answers and the tools return.

use vstd::prelude::*;
use crate::agent::{
    drain, initial_turn, next_model_call, nudge_budget, on_confirm_spec, on_output_spec,
    on_prose, on_reply_spec, reply_calls, well_formed, Cfg, EventV, NextV, Outcome, TurnV,
    count_eq, push_recent, recent_window, signature,
};
use crate::config::SandboxLevel;
use crate::engine::{CallView, ChatMessage, MessageView, Role};
use crate::json::Json;
use crate::permissions::{decision, Decision};
use crate::tools::{lookup, tool_mutating, tool_name, ToolOutput};

verus! {

/// `added` answers `calls` one for one, in order: the i-th message is the
/// tool result for the i-th call.
pub open spec fn answers(added: Seq<MessageView>, calls: Seq<CallView>) -> bool {
    &&& added.len() == calls.len()
    &&& forall|i: int|
        0 <= i < calls.len() ==> {
            &&& (#[trigger] added[i]).role == Role::Tool
            &&& added[i].tool_call_id == Some(calls[i].id)
            &&& added[i].name == Some(calls[i].name)
        }
}

/// The outcome of working through a batch from `st`: the calls from
/// `st.next_call` up to the outcome's position were answered in order after
/// `h`; the batch stops either at a call to be approved or run (pending, and
/// nothing more was added) or at its end (and then only the loop-stop request
/// may follow the answers).
pub open spec fn batch_outcome(h: Seq<MessageView>, st: TurnV, o: Outcome) -> bool {
    let k = o.st.next_call;
    let n = (k - st.next_call) as int;
    &&& o.st.calls == st.calls
    &&& st.next_call <= k <= st.calls.len()
    &&& h.len() + n <= o.history.len()
    &&& o.history.take(h.len() as int) == h
    &&& answers(o.history.subrange(h.len() as int, h.len() + n), st.calls.subrange(st.next_call as int, k as int))
    &&& ((o.next is RunTool || o.next is Confirm) ==> {
        &&& k < st.calls.len()
        &&& o.st.pending is Some
        &&& o.history.len() == h.len() + n
    })
    &&& (!(o.next is RunTool || o.next is Confirm) ==> {
        &&& k == st.calls.len()
        &&& o.st.pending is None
        &&& o.history.len() == h.len() + n + (if o.next is Summarize { 1int } else { 0int })
    })
}

proof fn lemma_finish_outcome(cfg: Cfg, h: Seq<MessageView>, st: TurnV, ev: Seq<EventV>)
    requires
        well_formed(st),
        st.next_call == st.calls.len(),
    ensures
        batch_outcome(h, st, crate::agent::finish_batch(cfg, h, st, ev)),
{
    let o = crate::agent::finish_batch(cfg, h, st, ev);
    assert(o.history.take(h.len() as int) =~= h);
    assert(o.history.subrange(h.len() as int, h.len() as int) =~= Seq::<MessageView>::empty());
    assert(st.calls.subrange(st.next_call as int, st.next_call as int) =~= Seq::<CallView>::empty());
}

/// The state after answering the current call of the batch.
pub open spec fn after_answer(st: TurnV) -> TurnV {
    let c = st.calls[st.next_call as int];
    let sig = signature(c);
    let recent = push_recent(st.recent, sig);
    crate::agent::answered(
        TurnV { recent, loop_detected: st.loop_detected || count_eq(recent, sig) >= 3, pending_error: true, ..st },
    )
}

/// Whether the call awaiting approval or its run is the current call of the
/// batch, names a tool on offer with arguments that parse, and is one the
/// policy allows (to run) or asks about (to confirm).
pub open spec fn permitted_pending(cfg: Cfg, o: Outcome) -> bool {
    (o.next is RunTool || o.next is Confirm) ==> match o.st.pending {
        Some((tool, a)) => {
            let c = o.st.calls[o.st.next_call as int];
            let d = decision(cfg.level, cfg.yolo, tool_mutating(tool), cfg.approved.contains(tool_name(tool)));
            &&& o.st.next_call < o.st.calls.len()
            &&& lookup(cfg.tools, c.name) == Some(tool)
            &&& crate::agent::args_of(c.arguments) == Ok::<Json, Seq<char>>(a)
            &&& (o.next is RunTool ==> d == Decision::Allow)
            &&& (o.next is Confirm ==> d == Decision::Ask)
        },
        None => false,
    }
}

/// What a pass over calls keeps of the turn state: the nudge budget, the
/// verification flags, the bound on the window of recent signatures, and a
/// detected loop.
pub open spec fn state_frame(st: TurnV, st2: TurnV) -> bool {
    &&& st2.nudges == st.nudges
    &&& st2.needs_verify == st.needs_verify
    &&& st2.bash_ran == st.bash_ran
    &&& (st.recent.len() <= recent_window() ==> st2.recent.len() <= recent_window())
    &&& (st.loop_detected ==> st2.loop_detected)
}

/// The window after recording a signature holds at most six entries and
/// ends with it.
pub proof fn lemma_window_bounded(recent: Seq<Seq<char>>, sig: Seq<char>)
    ensures
        recent.len() <= recent_window() ==> push_recent(recent, sig).len() <= recent_window(),
        push_recent(recent, sig).len() > 0,
        push_recent(recent, sig).last() == sig,
{
}

/// Stopping at the current call of the batch: nothing added, the call
/// pending.
pub open spec fn stops_here(h: Seq<MessageView>, st: TurnV, o: Outcome) -> bool {
    &&& o.history == h
    &&& o.st.next_call == st.next_call
    &&& o.st.calls == st.calls
    &&& o.st.pending is Some
    &&& (o.next is RunTool || o.next is Confirm)
}

/// One step of [`drain`] at a call: either the batch stops there, or a tool
/// result answers the call (unknown tool, bad arguments or a denial) and the
/// rest follows.
proof fn lemma_drain_step(cfg: Cfg, h: Seq<MessageView>, st: TurnV, ev: Seq<EventV>) -> (r: (MessageView, Seq<EventV>, bool))
    requires
        well_formed(st),
        st.next_call < st.calls.len(),
    ensures
        r.2 ==> stops_here(h, st, drain(cfg, h, st, ev)) && permitted_pending(cfg, drain(cfg, h, st, ev))
            && state_frame(st, drain(cfg, h, st, ev).st),
        state_frame(st, after_answer(st)),
        after_answer(st).calls == st.calls,
        after_answer(st).next_call == st.next_call + 1,
        !r.2 ==> {
            &&& r.0.role == Role::Tool
            &&& r.0.tool_call_id == Some(st.calls[st.next_call as int].id)
            &&& r.0.name == Some(st.calls[st.next_call as int].name)
            &&& drain(cfg, h, st, ev) == drain(cfg, h.push(r.0), after_answer(st), r.1)
        },
{
    let c = st.calls[st.next_call as int];
    let o = drain(cfg, h, st, ev);
    let st2 = after_answer(st);
    lemma_window_bounded(st.recent, signature(c));
    match lookup(cfg.tools, c.name) {
        None => {
            let msg = crate::agent::unknown_tool_text(c.name, cfg.tools);
            let m = crate::engine::tool_result_view(c.id, c.name, msg);
            let ev2 = ev.push(EventV::ToolResult(c.name, msg, true));
            assert(o == drain(cfg, h.push(m), st2, ev2));
            (m, ev2, false)
        },
        Some(tool) => match crate::agent::args_of(c.arguments) {
            Err(e) => {
                let msg = crate::agent::bad_args_text(e, c.arguments);
                let m = crate::engine::tool_result_view(c.id, c.name, msg);
                let ev2 = ev.push(EventV::ToolResult(c.name, msg, true));
                assert(o == drain(cfg, h.push(m), st2, ev2));
                (m, ev2, false)
            },
            Ok(a) => {
                let summary = crate::tools::summary_text(tool, a);
                let ev1 = ev.push(EventV::ToolStart(c.name, summary));
                let d = decision(cfg.level, cfg.yolo, tool_mutating(tool), cfg.approved.contains(tool_name(tool)));
                match d {
                    Decision::Deny => {
                        let m = crate::engine::tool_result_view(c.id, c.name, "Error: "@ + crate::agent::DENIED@);
                        let ev2 = ev1.push(EventV::ToolResult(c.name, crate::agent::DENIED@, true));
                        assert(o == drain(cfg, h.push(m), st2, ev2));
                        (m, ev2, false)
                    },
                    _ => {
                        assert(stops_here(h, st, o));
                        (crate::engine::simple_view(Role::Tool, Seq::empty()), ev, true)
                    },
                }
            },
        },
    }
}

/// Law: working through a batch answers each call it passes with exactly
/// one tool message, in order, and stops only at a call awaiting approval
/// or its run, or at the end of the batch.
pub proof fn law_batch_answered_in_order(cfg: Cfg, h: Seq<MessageView>, st: TurnV, ev: Seq<EventV>)
    requires
        well_formed(st),
    ensures
        batch_outcome(h, st, drain(cfg, h, st, ev)),
    decreases st.calls.len() - st.next_call,
{
    let o = drain(cfg, h, st, ev);
    if st.next_call >= st.calls.len() {
        lemma_finish_outcome(cfg, h, st, ev);
        return;
    }
    let (m, ev2, stop) = lemma_drain_step(cfg, h, st, ev);
    if stop {
        assert(o.history.take(h.len() as int) =~= h);
        assert(o.history.subrange(h.len() as int, h.len() as int) =~= Seq::<MessageView>::empty());
        assert(st.calls.subrange(st.next_call as int, st.next_call as int) =~= Seq::<CallView>::empty());
    } else {
        let c = st.calls[st.next_call as int];
        let st2 = after_answer(st);
        let h1 = h.push(m);
        law_batch_answered_in_order(cfg, h1, st2, ev2);
        let k = o.st.next_call;
        let n = (k - st.next_call) as int;
        assert(o.history.take(h1.len() as int) =~= h1);
        assert(o.history.take(h.len() as int) =~= h) by {
            assert(o.history.take(h.len() as int) =~= h1.take(h.len() as int));
        }
        let added = o.history.subrange(h.len() as int, h.len() + n);
        let rest = o.history.subrange(h1.len() as int, h1.len() + (n - 1));
        let calls = st.calls.subrange(st.next_call as int, k as int);
        let calls_rest = st.calls.subrange(st2.next_call as int, k as int);
        assert(o.history[h.len() as int] == h1[h.len() as int]);
        assert(added =~= seq![m] + rest);
        assert(calls =~= seq![c] + calls_rest);
        assert forall|i: int| 0 <= i < calls.len() implies {
            &&& (#[trigger] added[i]).role == Role::Tool
            &&& added[i].tool_call_id == Some(calls[i].id)
            &&& added[i].name == Some(calls[i].name)
        } by {
            if i > 0 {
                assert(added[i] == rest[i - 1]);
                assert(calls[i] == calls_rest[i - 1]);
            }
        }
    }
}

/// Law: a call is handed out to be run only when the policy allows it, and
/// put to the user only when the policy asks; either way it is the current
/// call of the batch, names a tool on offer, and its arguments parse.
pub proof fn law_run_only_when_permitted(cfg: Cfg, h: Seq<MessageView>, st: TurnV, ev: Seq<EventV>)
    requires
        well_formed(st),
    ensures
        permitted_pending(cfg, drain(cfg, h, st, ev)),
        state_frame(st, drain(cfg, h, st, ev).st),
        drain(cfg, h, st, ev).st.loop_detected && !(drain(cfg, h, st, ev).next is RunTool
            || drain(cfg, h, st, ev).next is Confirm) ==> drain(cfg, h, st, ev).next is Summarize,
    decreases st.calls.len() - st.next_call,
{
    let o = drain(cfg, h, st, ev);
    if st.next_call >= st.calls.len() {
        return;
    }
    let (m, ev2, stop) = lemma_drain_step(cfg, h, st, ev);
    if !stop {
        law_run_only_when_permitted(cfg, h.push(m), after_answer(st), ev2);
    }
}

/// Law: in read-only mode without auto-approval, no mutating tool is ever
/// handed out to be run, and nothing is put to the user.
pub proof fn law_read_only_runs_no_mutating_tool(cfg: Cfg, h: Seq<MessageView>, st: TurnV, ev: Seq<EventV>)
    requires
        well_formed(st),
        cfg.level == SandboxLevel::ReadOnly,
        !cfg.yolo,
    ensures
        !(drain(cfg, h, st, ev).next is Confirm),
        drain(cfg, h, st, ev).next is RunTool ==> match drain(cfg, h, st, ev).st.pending {
            Some((tool, _)) => !tool_mutating(tool),
            None => false,
        },
{
    law_run_only_when_permitted(cfg, h, st, ev);
}

/// Law: a detected repeat ends the request: once three identical calls show
/// up among the last six, the batch finishes with the request to stop and
/// summarize instead of another model call.
pub proof fn law_repeat_stops_the_request(cfg: Cfg, h: Seq<MessageView>, st: TurnV, ev: Seq<EventV>)
    requires
        well_formed(st),
        st.loop_detected || (st.next_call < st.calls.len() && count_eq(
            push_recent(st.recent, signature(st.calls[st.next_call as int])),
            signature(st.calls[st.next_call as int]),
        ) >= 3),
    ensures
        !(drain(cfg, h, st, ev).next is RunTool || drain(cfg, h, st, ev).next is Confirm)
            ==> drain(cfg, h, st, ev).next is Summarize
            && drain(cfg, h, st, ev).history.last() == crate::engine::simple_view(
            Role::User,
            crate::agent::LOOP_REQUEST@,
        ),
{
    let o = drain(cfg, h, st, ev);
    if st.next_call >= st.calls.len() {
        return;
    }
    let (m, ev2, stop) = lemma_drain_step(cfg, h, st, ev);
    if !stop {
        let st2 = after_answer(st);
        assert(st2.loop_detected);
        law_run_only_when_permitted(cfg, h.push(m), st2, ev2);
        lemma_finish_pushes_request(cfg, h.push(m), st2, ev2);
    }
}

proof fn lemma_finish_pushes_request(cfg: Cfg, h: Seq<MessageView>, st: TurnV, ev: Seq<EventV>)
    requires
        well_formed(st),
    ensures
        drain(cfg, h, st, ev).next is Summarize ==> drain(cfg, h, st, ev).history.last()
            == crate::engine::simple_view(Role::User, crate::agent::LOOP_REQUEST@),
    decreases st.calls.len() - st.next_call,
{
    let o = drain(cfg, h, st, ev);
    if st.next_call >= st.calls.len() {
        return;
    }
    let (m, ev2, stop) = lemma_drain_step(cfg, h, st, ev);
    if !stop {
        lemma_finish_pushes_request(cfg, h.push(m), after_answer(st), ev2);
    }
}

/// The turn state a reply's batch starts from.
pub open spec fn batch_start(st: TurnV, calls: Seq<CallView>) -> TurnV {
    TurnV { calls, next_call: 0, loop_detected: false, pending: None, ..st }
}

/// Law: a reply is recorded first; when it holds tool calls, each of them
/// is then answered by exactly one tool message, in order, up to the first
/// one awaiting approval or its run.
pub proof fn law_reply_recorded_then_answered(cfg: Cfg, h: Seq<MessageView>, st: TurnV, reply: ChatMessage)
    requires
        well_formed(st),
    ensures
        on_reply_spec(cfg, h, st, reply).history.len() > h.len(),
        on_reply_spec(cfg, h, st, reply).history.take(h.len() + 1int) == h.push(
            crate::agent::recorded_reply(crate::agent::reply_text(reply), reply_calls(reply)),
        ),
        reply_calls(reply).len() > 0 ==> batch_outcome(
            h.push(crate::agent::recorded_reply(crate::agent::reply_text(reply), reply_calls(reply))),
            batch_start(st, reply_calls(reply)),
            on_reply_spec(cfg, h, st, reply),
        ),
{
    let calls = reply_calls(reply);
    let h1 = h.push(crate::agent::recorded_reply(crate::agent::reply_text(reply), calls));
    let o = on_reply_spec(cfg, h, st, reply);
    if calls.len() > 0 {
        law_batch_answered_in_order(cfg, h1, batch_start(st, calls), Seq::empty());
        assert(o.history.take(h1.len() as int) == h1);
    } else {
        let text = crate::agent::reply_text(reply);
        let trimmed = crate::text::trim(match text {
            Some(t) => t,
            None => Seq::empty(),
        });
        assert(o.history.take(h1.len() as int) =~= h1);
    }
}

/// Law: the answer to the approval prompt or the result of the run answers
/// the pending call with exactly one tool message, and the batch goes on
/// from the next call.
pub proof fn law_pending_call_answered(
    cfg: Cfg,
    h: Seq<MessageView>,
    st: TurnV,
    approved: bool,
    res: Result<ToolOutput, String>,
)
    requires
        well_formed(st),
        st.pending is Some,
    ensures
        approved ==> on_confirm_spec(cfg, h, st, approved).next is RunTool
            && on_confirm_spec(cfg, h, st, approved).history == h
            && on_confirm_spec(cfg, h, st, approved).st == st,
        !approved ==> answers(
            on_confirm_spec(cfg, h, st, approved).history.subrange(h.len() as int, h.len() + 1int),
            seq![st.calls[st.next_call as int]],
        ) && batch_outcome(
            on_confirm_spec(cfg, h, st, approved).history.take(h.len() + 1int),
            crate::agent::answered(st),
            on_confirm_spec(cfg, h, st, approved),
        ),
        answers(
            on_output_spec(cfg, h, st, res).history.subrange(h.len() as int, h.len() + 1int),
            seq![st.calls[st.next_call as int]],
        ),
{
    let c = st.calls[st.next_call as int];
    if !approved {
        let m = crate::engine::tool_result_view(c.id, c.name, crate::agent::DECLINED_NOTE@);
        let h1 = h.push(m);
        law_batch_answered_in_order(cfg, h1, crate::agent::answered(st), seq![EventV::ToolResult(c.name, crate::agent::DECLINED@, true)]);
        let o = on_confirm_spec(cfg, h, st, approved);
        assert(o.history.take(h1.len() as int) == h1);
        assert(o.history.subrange(h.len() as int, h.len() + 1int) =~= seq![m]) by {
            assert(o.history[h.len() as int] == h1[h.len() as int]);
        }
    }
    let (content, is_error) = crate::agent::output_parts(res);
    let m2 = crate::engine::tool_result_view(c.id, c.name, crate::agent::capped_result(content));
    let h2 = h.push(m2);
    let st2 = crate::agent::answered(
        TurnV { pending_error: is_error, bash_ran: st.bash_ran || c.name == "bash"@, ..st },
    );
    law_batch_answered_in_order(cfg, h2, st2, seq![EventV::ToolResult(c.name, crate::text::truncated(content, crate::agent::max_shown_bytes(), "…"@), is_error)]);
    let o2 = on_output_spec(cfg, h, st, res);
    assert(o2.history.take(h2.len() as int) == h2);
    assert(o2.history.subrange(h.len() as int, h.len() + 1int) =~= seq![m2]) by {
        assert(o2.history[h.len() as int] == h2[h.len() as int]);
    }
}

/// Law: nudges only get used up. A reply takes at most one from the budget
/// (and then adds the nudge as a user message); the other steps keep it.
pub proof fn law_nudges_only_used_up(
    cfg: Cfg,
    h: Seq<MessageView>,
    st: TurnV,
    reply: ChatMessage,
    approved: bool,
    res: Result<ToolOutput, String>,
)
    requires
        well_formed(st),
    ensures
        on_reply_spec(cfg, h, st, reply).st.nudges == st.nudges || on_reply_spec(cfg, h, st, reply).st.nudges
            + 1 == st.nudges,
        st.pending is Some ==> on_confirm_spec(cfg, h, st, approved).st.nudges == st.nudges,
        st.pending is Some ==> on_output_spec(cfg, h, st, res).st.nudges == st.nudges,
        initial_turn(h, true).nudges == nudge_budget(),
        initial_turn(h, false).nudges == 0,
{
    let calls = reply_calls(reply);
    let h1 = h.push(crate::agent::recorded_reply(crate::agent::reply_text(reply), calls));
    if calls.len() > 0 {
        law_run_only_when_permitted(cfg, h1, batch_start(st, calls), Seq::empty());
    }
    if st.pending is Some {
        let c = st.calls[st.next_call as int];
        if !approved {
            let m = crate::engine::tool_result_view(c.id, c.name, crate::agent::DECLINED_NOTE@);
            law_run_only_when_permitted(cfg, h.push(m), crate::agent::answered(st), seq![EventV::ToolResult(c.name, crate::agent::DECLINED@, true)]);
        }
        let (content, is_error) = crate::agent::output_parts(res);
        let m2 = crate::engine::tool_result_view(c.id, c.name, crate::agent::capped_result(content));
        let st2 = crate::agent::answered(
            TurnV { pending_error: is_error, bash_ran: st.bash_ran || c.name == "bash"@, ..st },
        );
        law_run_only_when_permitted(cfg, h.push(m2), st2, seq![EventV::ToolResult(c.name, crate::text::truncated(content, crate::agent::max_shown_bytes(), "…"@), is_error)]);
    }
}


// ---------------------------------------------------------------------------
// A whole request
// ---------------------------------------------------------------------------

/// A message that asks for tool calls.
pub open spec fn asks_tools(m: MessageView) -> bool {
    m.role == Role::Assistant && m.tool_calls is Some
}

/// The calls a message asks for.
pub open spec fn calls_of(m: MessageView) -> Seq<CallView> {
    match m.tool_calls {
        Some(cs) => cs,
        None => Seq::empty(),
    }
}

/// The message at `p` is directly followed by one answer per call it asks
/// for, in order.
pub open spec fn answered_at(h: Seq<MessageView>, p: int) -> bool {
    let cs = calls_of(h[p]);
    &&& p + 1 + cs.len() <= h.len()
    &&& answers(h.subrange(p + 1, p + 1 + cs.len()), cs)
}

/// Every message in `from..upto` that asks for tool calls is answered.
pub open spec fn all_answered(h: Seq<MessageView>, from: int, upto: int) -> bool {
    forall|p: int| from <= p < upto && #[trigger] asks_tools(h[p]) ==> answered_at(h, p)
}

/// The call awaiting approval or its run names a tool on offer with
/// arguments that parse, and the policy does not deny it; a call put to the
/// user is one the policy asks about, and a call handed out to run is one
/// it allows or asks about.
pub open spec fn pending_allowed(cfg: Cfg, o: Outcome) -> bool {
    (o.next is RunTool || o.next is Confirm) ==> match o.st.pending {
        Some((tool, a)) => {
            let c = o.st.calls[o.st.next_call as int];
            let d = decision(cfg.level, cfg.yolo, tool_mutating(tool), cfg.approved.contains(tool_name(tool)));
            &&& lookup(cfg.tools, c.name) == Some(tool)
            &&& crate::agent::args_of(c.arguments) == Ok::<Json, Seq<char>>(a)
            &&& d != Decision::Deny
            &&& (o.next is Confirm ==> d == Decision::Ask)
            &&& (o.next is RunTool ==> d == Decision::Allow || d == Decision::Ask)
        },
        None => false,
    }
}

/// A state of a request that began on the history `base`: the history
/// only grew; while a call awaits approval or its run, the message asking
/// for the current batch is followed by the answers so far and every
/// earlier one is answered; otherwise every message since `base` that asks
/// for tool calls is answered.
pub open spec fn request_state(cfg: Cfg, base: Seq<MessageView>, o: Outcome) -> bool {
    let h = o.history;
    let st = o.st;
    &&& base.len() <= h.len()
    &&& h.take(base.len() as int) == base
    &&& well_formed(st)
    &&& pending_allowed(cfg, o)
    &&& if o.next is RunTool || o.next is Confirm {
        let p0 = h.len() - 1 - st.next_call;
        &&& st.pending is Some
        &&& base.len() <= p0
        &&& h[p0].role == Role::Assistant
        &&& h[p0].tool_calls == Some(st.calls)
        &&& answers(h.subrange(p0 + 1, h.len() as int), st.calls.take(st.next_call as int))
        &&& all_answered(h, base.len() as int, p0)
    } else {
        all_answered(h, base.len() as int, h.len() as int)
    }
}

proof fn lemma_answers_append(x: Seq<MessageView>, cx: Seq<CallView>, y: Seq<MessageView>, cy: Seq<CallView>)
    requires
        answers(x, cx),
        answers(y, cy),
    ensures
        answers(x + y, cx + cy),
{
    assert forall|i: int| 0 <= i < (cx + cy).len() implies {
        &&& (#[trigger] (x + y)[i]).role == Role::Tool
        &&& (x + y)[i].tool_call_id == Some((cx + cy)[i].id)
        &&& (x + y)[i].name == Some((cx + cy)[i].name)
    } by {
        if i < cx.len() {
            assert((x + y)[i] == x[i]);
            assert((cx + cy)[i] == cx[i]);
        } else {
            assert((x + y)[i] == y[i - x.len()]);
            assert((cx + cy)[i] == cy[i - cx.len()]);
        }
    }
}

proof fn lemma_keep_answered(h: Seq<MessageView>, big: Seq<MessageView>, from: int, upto: int)
    requires
        0 <= from,
        h.len() <= big.len(),
        big.take(h.len() as int) == h,
        upto <= h.len(),
        all_answered(h, from, upto),
    ensures
        all_answered(big, from, upto),
{
    assert forall|p: int| from <= p < upto && #[trigger] asks_tools(big[p]) implies answered_at(big, p) by {
        assert(big[p] == big.take(h.len() as int)[p]);
        assert(asks_tools(h[p]));
        assert(answered_at(h, p));
        let cs = calls_of(h[p]);
        assert(big.subrange(p + 1, p + 1 + cs.len()) =~= h.subrange(p + 1, p + 1 + cs.len())) by {
            assert forall|i: int| 0 <= i < cs.len() implies #[trigger] big.subrange(p + 1, p + 1 + cs.len())[i]
                == h.subrange(p + 1, p + 1 + cs.len())[i] by {
                assert(big[p + 1 + i] == big.take(h.len() as int)[p + 1 + i]);
            }
        }
    }
}

/// Working through the current batch from a state where its asking message
/// is followed by the answers so far keeps the request's state.
proof fn lemma_after_batch(cfg: Cfg, base: Seq<MessageView>, h: Seq<MessageView>, st: TurnV, ev: Seq<EventV>)
    requires
        well_formed(st),
        base.len() <= h.len(),
        h.take(base.len() as int) == base,
        base.len() <= h.len() - 1 - st.next_call,
        h[h.len() - 1 - st.next_call].role == Role::Assistant,
        h[h.len() - 1 - st.next_call].tool_calls == Some(st.calls),
        answers(h.subrange(h.len() - st.next_call, h.len() as int), st.calls.take(st.next_call as int)),
        all_answered(h, base.len() as int, h.len() - 1 - st.next_call),
    ensures
        request_state(cfg, base, drain(cfg, h, st, ev)),
{
    law_batch_answered_in_order(cfg, h, st, ev);
    law_run_only_when_permitted(cfg, h, st, ev);
    lemma_finish_pushes_request(cfg, h, st, ev);
    let o = drain(cfg, h, st, ev);
    let big = o.history;
    let nc = st.next_call as int;
    let k = o.st.next_call as int;
    let n = k - nc;
    let p0 = h.len() - 1 - nc;
    let calls = st.calls;
    assert(big.take(h.len() as int) == h);
    assert(big.take(base.len() as int) =~= h.take(base.len() as int)) by {
        assert(big.take(base.len() as int) =~= big.take(h.len() as int).take(base.len() as int));
    }
    let old_ans = h.subrange(p0 + 1, h.len() as int);
    let new_ans = big.subrange(h.len() as int, h.len() + n);
    lemma_answers_append(old_ans, calls.take(nc), new_ans, calls.subrange(nc, k));
    assert(big.subrange(p0 + 1, h.len() + n) =~= old_ans + new_ans) by {
        assert forall|i: int| 0 <= i < old_ans.len() implies #[trigger] big.subrange(p0 + 1, h.len() + n)[i] == old_ans[i] by {
            assert(big[p0 + 1 + i] == big.take(h.len() as int)[p0 + 1 + i]);
        }
    }
    assert(calls.take(k) =~= calls.take(nc) + calls.subrange(nc, k));
    lemma_keep_answered(h, big, base.len() as int, p0);
    assert(big[p0] == h[p0]) by {
        assert(big[p0] == big.take(h.len() as int)[p0]);
    }
    if o.next is RunTool || o.next is Confirm {
        assert(big.len() - 1 - k == p0);
        assert(big.subrange(p0 + 1, big.len() as int) =~= big.subrange(p0 + 1, h.len() + n));
    } else {
        assert(k == calls.len());
        assert(calls.take(k) =~= calls);
        assert forall|p: int| base.len() <= p < big.len() && #[trigger] asks_tools(big[p]) implies answered_at(
            big,
            p,
        ) by {
            if p == p0 {
                assert(calls_of(big[p0]) == calls);
            } else if p > p0 {
                if p < h.len() + n {
                    let all_ans = big.subrange(p0 + 1, h.len() + n);
                    assert(big[p] == all_ans[p - p0 - 1]);
                    assert(all_ans[p - p0 - 1].role == Role::Tool);
                } else {
                    assert(o.next is Summarize);
                    assert(big[p] == big.last());
                }
            }
        }
    }
}

/// Law (a request begins): the state a request starts in keeps the
/// request's invariant.
pub proof fn law_request_begins(cfg: Cfg, base: Seq<MessageView>, autonomous: bool)
    ensures
        request_state(cfg, base, next_model_call(cfg, base, initial_turn(base, autonomous), Seq::empty())),
{
    let o = next_model_call(cfg, base, initial_turn(base, autonomous), Seq::empty());
    assert(o.history.take(base.len() as int) =~= base);
}

/// Law (the model replied): whatever the reply, handling it keeps the
/// request's invariant.
pub proof fn law_request_reply(cfg: Cfg, base: Seq<MessageView>, o: Outcome, reply: ChatMessage)
    requires
        request_state(cfg, base, o),
        o.next is CallModel,
    ensures
        request_state(cfg, base, on_reply_spec(cfg, o.history, o.st, reply)),
{
    let h = o.history;
    let calls = reply_calls(reply);
    let text = crate::agent::reply_text(reply);
    let rec = crate::agent::recorded_reply(text, calls);
    let h1 = h.push(rec);
    assert(h1.take(h.len() as int) =~= h);
    assert(h1.take(base.len() as int) =~= base) by {
        assert(h1.take(base.len() as int) =~= h.take(base.len() as int));
    }
    lemma_keep_answered(h, h1, base.len() as int, h.len() as int);
    if calls.len() > 0 {
        let st1 = batch_start(o.st, calls);
        assert(h1[h.len() as int] == rec);
        assert(h1.subrange(h1.len() as int, h1.len() as int) =~= Seq::<MessageView>::empty());
        assert(calls.take(0) =~= Seq::<CallView>::empty());
        lemma_after_batch(cfg, base, h1, st1, Seq::empty());
    } else {
        let r = on_reply_spec(cfg, h, o.st, reply);
        assert(r == on_prose(cfg, h1, o.st, text));
        let big = r.history;
        assert(!asks_tools(rec));
        assert(big.len() == h1.len() || big.len() == h1.len() + 1);
        assert(big.take(h1.len() as int) =~= h1);
        assert(big.len() == h1.len() + 1 ==> big.last().role == Role::User);
        lemma_keep_answered(h1, big, base.len() as int, h.len() as int);
        assert(big.take(base.len() as int) =~= base) by {
            assert(big.take(base.len() as int) =~= big.take(h1.len() as int).take(base.len() as int));
        }
        assert forall|p: int| base.len() <= p < big.len() && #[trigger] asks_tools(big[p]) implies answered_at(
            big,
            p,
        ) by {
            if p == h.len() {
                assert(big[p] == big.take(h1.len() as int)[p]);
            } else if p > h.len() {
                assert(big[p] == big.last());
            }
        }
    }
}

/// Law (the user answered the approval prompt): approving hands the call
/// out to run, refusing answers it; either way the request's invariant is
/// kept.
pub proof fn law_request_confirm(cfg: Cfg, base: Seq<MessageView>, o: Outcome, approved: bool)
    requires
        request_state(cfg, base, o),
        o.next is Confirm,
    ensures
        request_state(cfg, base, on_confirm_spec(cfg, o.history, o.st, approved)),
{
    if !approved {
        let h = o.history;
        let st = o.st;
        let c = st.calls[st.next_call as int];
        let m = crate::engine::tool_result_view(c.id, c.name, crate::agent::DECLINED_NOTE@);
        lemma_pending_answered(cfg, base, h, st, m);
    }
}

/// Law (the pending call ran): recording its result keeps the request's
/// invariant.
pub proof fn law_request_output(cfg: Cfg, base: Seq<MessageView>, o: Outcome, res: Result<ToolOutput, String>)
    requires
        request_state(cfg, base, o),
        o.next is RunTool,
    ensures
        request_state(cfg, base, on_output_spec(cfg, o.history, o.st, res)),
{
    let h = o.history;
    let st = o.st;
    let c = st.calls[st.next_call as int];
    let (content, is_error) = crate::agent::output_parts(res);
    let m = crate::engine::tool_result_view(c.id, c.name, crate::agent::capped_result(content));
    let st1 = TurnV { pending_error: is_error, bash_ran: st.bash_ran || c.name == "bash"@, ..st };
    lemma_pending_answered(cfg, base, h, st1, m);
}

proof fn lemma_pending_answered(cfg: Cfg, base: Seq<MessageView>, h: Seq<MessageView>, st: TurnV, m: MessageView)
    requires
        well_formed(st),
        st.pending is Some,
        base.len() <= h.len(),
        h.take(base.len() as int) == base,
        base.len() <= h.len() - 1 - st.next_call,
        h[h.len() - 1 - st.next_call].role == Role::Assistant,
        h[h.len() - 1 - st.next_call].tool_calls == Some(st.calls),
        answers(h.subrange(h.len() - st.next_call, h.len() as int), st.calls.take(st.next_call as int)),
        all_answered(h, base.len() as int, h.len() - 1 - st.next_call),
        m.role == Role::Tool,
        m.tool_call_id == Some(st.calls[st.next_call as int].id),
        m.name == Some(st.calls[st.next_call as int].name),
    ensures
        forall|ev: Seq<EventV>|
            request_state(cfg, base, #[trigger] drain(cfg, h.push(m), crate::agent::answered(st), ev)),
{
    let nc = st.next_call as int;
    let h2 = h.push(m);
    let st2 = crate::agent::answered(st);
    let p0 = h.len() - 1 - nc;
    assert(h2.take(h.len() as int) =~= h);
    assert(h2.take(base.len() as int) =~= base) by {
        assert(h2.take(base.len() as int) =~= h.take(base.len() as int));
    }
    assert(h2[p0] == h[p0]);
    lemma_answers_append(h.subrange(h.len() - nc, h.len() as int), st.calls.take(nc), seq![m], seq![st.calls[nc]]);
    assert(h2.subrange(h2.len() - (nc + 1), h2.len() as int) =~= h.subrange(h.len() - nc, h.len() as int)
        + seq![m]);
    assert(st.calls.take(nc + 1) =~= st.calls.take(nc) + seq![st.calls[nc]]);
    lemma_keep_answered(h, h2, base.len() as int, p0);
    assert forall|ev: Seq<EventV>| request_state(cfg, base, #[trigger] drain(cfg, h2, st2, ev)) by {
        lemma_after_batch(cfg, base, h2, st2, ev);
    }
}

/// Law (the policy over a request): a step taken on the model's reply, on
/// a refusal or on a tool's result hands a call out to run only when the
/// policy allows it, and puts one to the user only when the policy asks
/// about it; approving is the only step that hands out a call the policy
/// asks about, and it hands out exactly the call that was put to the user.
pub proof fn law_request_policy(
    cfg: Cfg,
    base: Seq<MessageView>,
    o: Outcome,
    reply: ChatMessage,
    res: Result<ToolOutput, String>,
)
    requires
        request_state(cfg, base, o),
    ensures
        o.next is CallModel ==> permitted_pending(cfg, on_reply_spec(cfg, o.history, o.st, reply)),
        o.next is Confirm ==> permitted_pending(cfg, on_confirm_spec(cfg, o.history, o.st, false)),
        o.next is Confirm ==> on_confirm_spec(cfg, o.history, o.st, true).next is RunTool && on_confirm_spec(
            cfg,
            o.history,
            o.st,
            true,
        ).st == o.st && on_confirm_spec(cfg, o.history, o.st, true).history == o.history,
        o.next is RunTool ==> permitted_pending(cfg, on_output_spec(cfg, o.history, o.st, res)),
{
    let h = o.history;
    let st = o.st;
    if o.next is CallModel {
        let calls = reply_calls(reply);
        let h1 = h.push(crate::agent::recorded_reply(crate::agent::reply_text(reply), calls));
        if calls.len() > 0 {
            law_run_only_when_permitted(cfg, h1, batch_start(st, calls), Seq::empty());
        }
    }
    if o.next is Confirm || o.next is RunTool {
        let c = st.calls[st.next_call as int];
        let m = crate::engine::tool_result_view(c.id, c.name, crate::agent::DECLINED_NOTE@);
        law_run_only_when_permitted(cfg, h.push(m), crate::agent::answered(st), seq![EventV::ToolResult(c.name, crate::agent::DECLINED@, true)]);
        let (content, is_error) = crate::agent::output_parts(res);
        let m2 = crate::engine::tool_result_view(c.id, c.name, crate::agent::capped_result(content));
        let st2 = crate::agent::answered(
            TurnV { pending_error: is_error, bash_ran: st.bash_ran || c.name == "bash"@, ..st },
        );
        law_run_only_when_permitted(cfg, h.push(m2), st2, seq![EventV::ToolResult(c.name, crate::text::truncated(content, crate::agent::max_shown_bytes(), "…"@), is_error)]);
    }
}

// ---------------------------------------------------------------------------
// Loop detection
// ---------------------------------------------------------------------------

/// Law: a call's signature tells its name and its arguments apart: two calls
/// of tools whose names hold no `:` have the same signature only when they
/// have the same name and the same arguments text.
pub proof fn law_signature_tells_calls_apart(c1: CallView, c2: CallView)
    requires
        !c1.name.contains(':'),
        !c2.name.contains(':'),
        signature(c1) == signature(c2),
    ensures
        c1.name == c2.name,
        c1.arguments == c2.arguments,
{
    reveal_strlit(":");
    let s1 = signature(c1);
    let s2 = signature(c2);
    let n1 = c1.name.len() as int;
    let n2 = c2.name.len() as int;
    assert(s1[n1] == ':');
    assert(s2[n2] == ':');
    if n1 < n2 {
        assert(s2[n1] == c2.name[n1]);
        assert(c2.name.contains(c2.name[n1]));
        assert(false);
    }
    if n2 < n1 {
        assert(s1[n2] == c1.name[n2]);
        assert(c1.name.contains(c1.name[n2]));
        assert(false);
    }
    assert(c1.name =~= s1.take(n1));
    assert(c2.name =~= s2.take(n2));
    assert(c1.arguments =~= s1.skip(n1 + 1));
    assert(c2.arguments =~= s2.skip(n2 + 1));
}

proof fn lemma_count_absent(s: Seq<Seq<char>>, x: Seq<char>)
    requires
        !s.contains(x),
    ensures
        count_eq(s, x) == 0,
    decreases s.len(),
{
    if s.len() > 0 {
        assert(s.drop_last().len() < s.len());
        assert forall|i: int| 0 <= i < s.drop_last().len() implies s.drop_last()[i] != x by {
            assert(s.drop_last()[i] == s[i]);
        }
        assert(s.last() == s[s.len() - 1]);
        lemma_count_absent(s.drop_last(), x);
    }
}

proof fn lemma_count_drop_first(s: Seq<Seq<char>>, x: Seq<char>)
    requires
        s.len() > 0,
    ensures
        count_eq(s, x) == count_eq(s.drop_first(), x) + (if s[0] == x { 1nat } else { 0nat }),
    decreases s.len(),
{
    if s.len() == 1 {
        assert(s.drop_first() =~= Seq::<Seq<char>>::empty());
        assert(s.drop_last() =~= Seq::<Seq<char>>::empty());
    } else {
        lemma_count_drop_first(s.drop_last(), x);
        assert(s.drop_last().drop_first() =~= s.drop_first().drop_last());
        assert(s.drop_first().last() == s.last());
    }
}

/// Recording a signature absent from the window leaves it there once.
proof fn lemma_push_fresh(recent: Seq<Seq<char>>, sig: Seq<char>)
    requires
        !recent.contains(sig),
    ensures
        count_eq(push_recent(recent, sig), sig) < 3,
        forall|y: Seq<char>| #[trigger] push_recent(recent, sig).contains(y) ==> y == sig || recent.contains(y),
{
    let r = recent.push(sig);
    lemma_count_absent(recent, sig);
    assert(r.drop_last() =~= recent);
    assert(count_eq(r, sig) == 1);
    if r.len() > recent_window() {
        lemma_count_drop_first(r, sig);
    }
    assert forall|y: Seq<char>| #[trigger] push_recent(recent, sig).contains(y) implies y == sig || recent.contains(y) by {
        let pr = push_recent(recent, sig);
        let i = choose|i: int| 0 <= i < pr.len() && pr[i] == y;
        if r.len() > recent_window() {
            assert(pr[i] == r[i + 1]);
            if i + 1 < recent.len() {
                assert(recent[i + 1] == y);
            }
        } else {
            if i < recent.len() {
                assert(recent[i] == y);
            }
        }
    }
}

/// The calls of the batch from `p` on all differ from each other in name or
/// arguments, name no tool whose name holds a `:`, and none of them is in
/// the window of recent calls; and no loop was seen.
pub open spec fn fresh_from(st: TurnV, p: int) -> bool {
    &&& !st.loop_detected
    &&& forall|i: int| p <= i < st.calls.len() ==> !(#[trigger] st.calls[i]).name.contains(':')
    &&& forall|i: int, j: int|
        p <= i < j < st.calls.len() ==> (#[trigger] st.calls[i]).name != (#[trigger] st.calls[j]).name
            || st.calls[i].arguments != st.calls[j].arguments
    &&& forall|i: int| p <= i < st.calls.len() ==> !st.recent.contains(signature(#[trigger] st.calls[i]))
}

/// The fresh part of a batch: after the pending call, if any.
pub open spec fn fresh_rest(st: TurnV) -> bool {
    fresh_from(st, st.next_call + if st.pending is Some { 1int } else { 0int })
}

proof fn lemma_drain_fresh(cfg: Cfg, h: Seq<MessageView>, st: TurnV, ev: Seq<EventV>)
    requires
        well_formed(st),
        st.pending is None,
        fresh_from(st, st.next_call as int),
    ensures
        !drain(cfg, h, st, ev).st.loop_detected,
        !(drain(cfg, h, st, ev).next is Summarize),
        (drain(cfg, h, st, ev).next is RunTool || drain(cfg, h, st, ev).next is Confirm) ==> fresh_rest(
            drain(cfg, h, st, ev).st,
        ),
    decreases st.calls.len() - st.next_call,
{
    let o = drain(cfg, h, st, ev);
    if st.next_call >= st.calls.len() {
        return;
    }
    let k = st.next_call as int;
    let c = st.calls[k];
    let sig = signature(c);
    lemma_push_fresh(st.recent, sig);
    let recent = push_recent(st.recent, sig);
    assert forall|i: int| k < i < st.calls.len() implies !recent.contains(signature(#[trigger] st.calls[i])) by {
        if signature(st.calls[i]) == sig {
            law_signature_tells_calls_apart(st.calls[i], c);
        }
        assert(!st.recent.contains(signature(st.calls[i])));
    }
    let (m, ev2, stop) = lemma_drain_step(cfg, h, st, ev);
    if stop {
        assert(o.st.recent == recent);
        assert(o.st.calls == st.calls);
        assert(o.st.next_call == k);
    } else {
        let st2 = after_answer(st);
        assert(st2.recent == recent);
        assert(!st2.loop_detected);
        lemma_drain_fresh(cfg, h.push(m), st2, ev2);
    }
}

/// Law (no false loop): when the model asks for calls that all differ from
/// each other in name or arguments (and from the calls in the window of
/// recent ones), working through the reply never reports a loop, and the
/// request goes on instead of being stopped for a summary.
pub proof fn law_distinct_calls_are_no_loop(cfg: Cfg, h: Seq<MessageView>, st: TurnV, reply: ChatMessage)
    requires
        well_formed(st),
        forall|i: int| 0 <= i < reply_calls(reply).len() ==> !(#[trigger] reply_calls(reply)[i]).name.contains(':'),
        forall|i: int, j: int|
            0 <= i < j < reply_calls(reply).len() ==> (#[trigger] reply_calls(reply)[i]).name != (#[trigger] reply_calls(
                reply,
            )[j]).name || reply_calls(reply)[i].arguments != reply_calls(reply)[j].arguments,
        forall|i: int| 0 <= i < reply_calls(reply).len() ==> !st.recent.contains(signature(#[trigger] reply_calls(reply)[i])),
    ensures
        !(on_reply_spec(cfg, h, st, reply).next is Summarize),
        reply_calls(reply).len() > 0 ==> !on_reply_spec(cfg, h, st, reply).st.loop_detected,
        (on_reply_spec(cfg, h, st, reply).next is RunTool || on_reply_spec(cfg, h, st, reply).next is Confirm)
            ==> fresh_rest(on_reply_spec(cfg, h, st, reply).st),
{
    let calls = reply_calls(reply);
    if calls.len() > 0 {
        let h1 = h.push(crate::agent::recorded_reply(crate::agent::reply_text(reply), calls));
        let st1 = batch_start(st, calls);
        lemma_drain_fresh(cfg, h1, st1, Seq::empty());
    }
}

/// Law (no false loop, continued): once a call of such a batch has run, or
/// the user refused it, the rest of the batch is worked through without a
/// loop being reported; approving changes nothing of the state.
pub proof fn law_distinct_calls_go_on(
    cfg: Cfg,
    h: Seq<MessageView>,
    st: TurnV,
    res: Result<ToolOutput, String>,
)
    requires
        well_formed(st),
        st.pending is Some,
        fresh_rest(st),
    ensures
        !on_output_spec(cfg, h, st, res).st.loop_detected,
        !(on_output_spec(cfg, h, st, res).next is Summarize),
        (on_output_spec(cfg, h, st, res).next is RunTool || on_output_spec(cfg, h, st, res).next is Confirm)
            ==> fresh_rest(on_output_spec(cfg, h, st, res).st),
        !on_confirm_spec(cfg, h, st, false).st.loop_detected,
        !(on_confirm_spec(cfg, h, st, false).next is Summarize),
        (on_confirm_spec(cfg, h, st, false).next is RunTool || on_confirm_spec(cfg, h, st, false).next is Confirm)
            ==> fresh_rest(on_confirm_spec(cfg, h, st, false).st),
        on_confirm_spec(cfg, h, st, true).st == st,
{
    let c = st.calls[st.next_call as int];
    let m = crate::engine::tool_result_view(c.id, c.name, crate::agent::DECLINED_NOTE@);
    lemma_drain_fresh(cfg, h.push(m), crate::agent::answered(st), seq![EventV::ToolResult(c.name, crate::agent::DECLINED@, true)]);
    let (content, is_error) = crate::agent::output_parts(res);
    let m2 = crate::engine::tool_result_view(c.id, c.name, crate::agent::capped_result(content));
    let st2 = crate::agent::answered(
        TurnV { pending_error: is_error, bash_ran: st.bash_ran || c.name == "bash"@, ..st },
    );
    lemma_drain_fresh(cfg, h.push(m2), st2, seq![EventV::ToolResult(c.name, crate::text::truncated(content, crate::agent::max_shown_bytes(), "…"@), is_error)]);
}

} // verus!
