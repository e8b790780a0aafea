use localcode::agent::{
    looks_unfinished, mentions_verification, truncate, Agent, Next, Step, TurnState, UiEvent, DECLINED_NOTE,
    LOOP_REQUEST, NUDGE_ACT, NUDGE_FAILED, NUDGE_VERIFY,
};
use localcode::config::SandboxLevel;
use localcode::engine::{ChatMessage, FunctionCall, Role, ToolCall};
use localcode::permissions::Policy;
use localcode::tools::{default_registry, ToolOutput};

fn agent(level: SandboxLevel, max_turns: usize, autonomous: bool) -> Agent {
    Agent::new(default_registry(), Policy::new(level), "/w".to_string(), "sys", max_turns, 1000, autonomous)
}

fn call(id: &str, name: &str, args: &str) -> ToolCall {
    ToolCall {
        id: id.to_string(),
        call_type: "function".to_string(),
        function: FunctionCall { name: name.to_string(), arguments: args.to_string() },
    }
}

fn reply_with(calls: Vec<ToolCall>) -> ChatMessage {
    ChatMessage { role: Role::Assistant, content: None, tool_calls: Some(calls), tool_call_id: None, name: None }
}

fn start(a: &mut Agent, request: &str) -> TurnState {
    a.push_user(request);
    let (st, step) = a.start_turn();
    assert!(matches!(step.next, Next::CallModel));
    st
}

fn tool_messages(a: &Agent) -> Vec<(String, String)> {
    a.snapshot()
        .into_iter()
        .filter(|m| m.role == Role::Tool)
        .map(|m| (m.tool_call_id.unwrap(), m.content.unwrap()))
        .collect()
}

#[test]
fn read_tool_runs_and_its_result_is_recorded() {
    let mut a = agent(SandboxLevel::ReadOnly, 5, false);
    let mut st = start(&mut a, "show a.rs");
    let step = a.on_reply(&mut st, reply_with(vec![call("c1", "read_file", "{\"path\":\"a.rs\"}")]));
    assert!(matches!(step.next, Next::RunTool));
    assert!(matches!(&step.events[0], UiEvent::ToolStart { summary, .. } if summary == "read a.rs"));
    let step = a.on_tool_output(&mut st, Ok(ToolOutput::ok("fn main() {}".to_string())));
    assert!(matches!(step.next, Next::CallModel));
    assert_eq!(tool_messages(&a), vec![("c1".to_string(), "fn main() {}".to_string())]);
}

#[test]
fn read_only_denies_mutating_tools() {
    let mut a = agent(SandboxLevel::ReadOnly, 5, false);
    let mut st = start(&mut a, "edit it");
    let step = a.on_reply(&mut st, reply_with(vec![call("c1", "write_file", "{\"path\":\"x\",\"content\":\"y\"}")]));
    assert!(matches!(step.next, Next::CallModel));
    assert_eq!(
        tool_messages(&a),
        vec![("c1".to_string(), "Error: Denied by sandbox policy (read-only mode).".to_string())]
    );
}

#[test]
fn mutating_tool_asks_and_a_refusal_is_answered() {
    let mut a = agent(SandboxLevel::WorkspaceWrite, 5, false);
    let mut st = start(&mut a, "edit it");
    let step = a.on_reply(
        &mut st,
        reply_with(vec![
            call("c1", "edit_file", "{\"path\":\"a.rs\",\"old_string\":\"x\",\"new_string\":\"y\"}"),
            call("c2", "list_dir", ""),
        ]),
    );
    assert!(matches!(&step.next, Next::Confirm(p) if p == "Allow edit a.rs?"));
    let step = a.on_confirm(&mut st, false);
    // the second call (read-only) runs without asking
    assert!(matches!(step.next, Next::RunTool));
    let step = a.on_tool_output(&mut st, Ok(ToolOutput::ok("a.rs".to_string())));
    assert!(matches!(step.next, Next::CallModel));
    assert_eq!(
        tool_messages(&a),
        vec![("c1".to_string(), DECLINED_NOTE.to_string()), ("c2".to_string(), "a.rs".to_string())]
    );
}

#[test]
fn approval_leads_to_run() {
    let mut a = agent(SandboxLevel::WorkspaceWrite, 5, false);
    let mut st = start(&mut a, "run tests");
    let step = a.on_reply(&mut st, reply_with(vec![call("c1", "bash", "{\"command\":\"cargo test\\nmore\"}")]));
    assert!(matches!(&step.next, Next::Confirm(p) if p == "Allow bash: cargo test?"));
    let step = a.on_confirm(&mut st, true);
    assert!(matches!(step.next, Next::RunTool));
    assert!(st.pending_tool().is_some());
}

#[test]
fn unknown_tools_and_bad_arguments_are_answered() {
    let mut a = agent(SandboxLevel::Full, 5, false);
    let mut st = start(&mut a, "go");
    let step = a.on_reply(&mut st, reply_with(vec![call("c1", "fly", "{}"), call("c2", "read_file", "{oops")]));
    assert!(matches!(step.next, Next::CallModel));
    let msgs = tool_messages(&a);
    assert_eq!(msgs.len(), 2);
    assert!(msgs[0].1.starts_with("Error: unknown tool 'fly'. Available tools: [\"read_file\""));
    assert!(msgs[1].1.starts_with("Error: arguments were not valid JSON ("));
    assert!(msgs[1].1.ends_with("). You sent: {oops"));
}

#[test]
fn repeated_calls_stop_the_request() {
    let mut a = agent(SandboxLevel::Full, 5, false);
    let mut st = start(&mut a, "go");
    let same = || call("", "glob", "{\"pattern\":\"*\"}");
    let mut step: Step = a.on_reply(&mut st, reply_with(vec![same(), same(), same()]));
    for _ in 0..3 {
        assert!(matches!(step.next, Next::RunTool));
        step = a.on_tool_output(&mut st, Ok(ToolOutput::ok("x".to_string())));
    }
    assert!(matches!(step.next, Next::Summarize));
    let h = a.snapshot();
    assert_eq!(h.last().unwrap().content.as_deref(), Some(LOOP_REQUEST));
    // ids were given to the calls, each answered once
    let ids: Vec<String> = tool_messages(&a).into_iter().map(|(i, _)| i).collect();
    assert_eq!(ids, vec!["call_0", "call_1", "call_2"]);
}

#[test]
fn turn_limit_stops_the_request() {
    let mut a = agent(SandboxLevel::Full, 1, false);
    let mut st = start(&mut a, "go");
    let step = a.on_reply(&mut st, reply_with(vec![call("c1", "list_dir", "{}")]));
    assert!(matches!(step.next, Next::RunTool));
    let step = a.on_tool_output(&mut st, Err("disk on fire".to_string()));
    assert!(matches!(step.next, Next::Done));
    assert!(step.events.iter().any(|e| matches!(e, UiEvent::Notice(t) if t == "Reached the 1-turn limit; stopping.")));
    assert_eq!(tool_messages(&a), vec![("c1".to_string(), "Error: disk on fire".to_string())]);
}

#[test]
fn zero_turns_never_calls_the_model() {
    let mut a = agent(SandboxLevel::Full, 0, false);
    a.push_user("hi");
    let (_st, step) = a.start_turn();
    assert!(matches!(step.next, Next::Done));
}

#[test]
fn plain_answer_finishes() {
    let mut a = agent(SandboxLevel::Full, 5, false);
    let mut st = start(&mut a, "hi");
    let step = a.on_reply(&mut st, ChatMessage::assistant("Hello there."));
    assert!(matches!(step.next, Next::Done));
    assert!(step.events.is_empty());
    let step2 = {
        let mut st2 = start(&mut a, "again");
        a.on_reply(&mut st2, ChatMessage::assistant("   "))
    };
    assert!(matches!(&step2.events[0], UiEvent::Notice(t) if t == "(no response)"));
}

#[test]
fn autonomous_mode_nudges_narration_and_unverified_work() {
    let mut a = agent(SandboxLevel::Full, 10, true);
    let mut st = start(&mut a, "please run the tests");
    let step = a.on_reply(&mut st, ChatMessage::assistant("Let me look at the file."));
    assert!(matches!(step.next, Next::CallModel));
    assert_eq!(a.last_user_text().as_deref(), Some(NUDGE_VERIFY));
    let step = a.on_reply(&mut st, reply_with(vec![call("c1", "write_file", "{\"path\":\"a\",\"content\":\"b\"}")]));
    assert!(matches!(step.next, Next::RunTool));
    let step = a.on_tool_output(&mut st, Ok(ToolOutput::err("boom".to_string())));
    assert!(matches!(step.next, Next::CallModel));
    let step = a.on_reply(&mut st, ChatMessage::assistant("All good."));
    assert!(matches!(step.next, Next::CallModel));
    assert_eq!(a.last_user_text().as_deref(), Some(NUDGE_FAILED));
    let step = a.on_reply(&mut st, ChatMessage::assistant("I will now edit it."));
    assert!(matches!(step.next, Next::CallModel));
    // the budget of three is spent: the next prose reply ends the request
    let step = a.on_reply(&mut st, ChatMessage::assistant("Done."));
    assert!(matches!(step.next, Next::Done));
    let _ = NUDGE_ACT;
}

#[test]
fn heuristics() {
    assert!(mentions_verification("Please RUN the suite"));
    assert!(mentions_verification("make sure it builds"));
    assert!(!mentions_verification("explain this"));
    assert!(looks_unfinished("Let me check the file."));
    assert!(looks_unfinished("```rust\nfn x(){}\n```"));
    assert!(!looks_unfinished("All finished. Done!"));
    assert!(!looks_unfinished(""));
    assert!(!looks_unfinished("The answer is 42."));
    assert_eq!(truncate("héllo", 2), "h…");
    assert_eq!(truncate("hello", 5), "hello");
}

#[test]
fn compaction_replaces_history_with_summary() {
    let mut a = agent(SandboxLevel::Full, 5, false);
    assert!(a.compact_request(None).is_none());
    a.push_user("first");
    a.push_user("second");
    let req = a.compact_request(Some("paths")).unwrap();
    assert_eq!(req[0].role, Role::System);
    let body = req[1].content.clone().unwrap();
    assert!(body.contains(" Pay special attention to: paths.\n\nUser: first\nUser: second\n"));
    let n = a.apply_summary("  the gist  ");
    assert_eq!(n, 12);
    let h = a.snapshot();
    assert_eq!(h.len(), 2);
    assert_eq!(h[0].content.as_deref(), Some("sys"));
    assert_eq!(h[1].content.as_deref(), Some("[Summary of earlier conversation]\nthe gist"));
}

#[test]
fn session_bookkeeping() {
    let mut a = agent(SandboxLevel::WorkspaceWrite, 5, true);
    a.push_user("hello world");
    assert_eq!(a.message_count(), 1);
    assert_eq!(a.approx_tokens(), (3 + 11) / 4);
    a.set_sandbox(SandboxLevel::Full);
    assert_eq!(a.sandbox_level(), SandboxLevel::Full);
    assert_eq!(a.ctx().sandbox, SandboxLevel::Full);
    a.reset();
    assert_eq!(a.message_count(), 0);
}

#[test]
fn registry_offers_the_web_tools() {
    let names = default_registry().names();
    for want in
        ["read_file", "write_file", "edit_file", "list_dir", "glob", "grep", "bash", "todo_write", "web_search", "web_fetch"]
    {
        assert!(names.contains(&want), "{want} missing");
    }
    let mut sorted = names.clone();
    sorted.sort();
    sorted.dedup();
    assert_eq!(sorted.len(), names.len());
}
