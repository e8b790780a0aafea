use localcode::architect::{begin_architect, begin_editor, strip_plan_marker, EditorStart};
use localcode::agent::Agent;
use localcode::config::SandboxLevel;
use localcode::engine::{ChatMessage, Role};
use localcode::permissions::Policy;
use localcode::tools::default_registry;

#[test]
fn strips_trailing_sentinel() {
    assert_eq!(strip_plan_marker("do x\ndo y\nPLAN COMPLETE"), "do x\ndo y");
    assert_eq!(strip_plan_marker("do x\nPLAN COMPLETE\n"), "do x");
}

#[test]
fn keeps_body_without_sentinel() {
    assert_eq!(strip_plan_marker("plan body"), "plan body");
}

#[test]
fn marker_mid_plan_is_kept() {
    assert_eq!(strip_plan_marker("PLAN COMPLETE then more"), "PLAN COMPLETE then more");
    assert_eq!(strip_plan_marker("a\nPLAN COMPLETE  \n\n"), "a");
    assert_eq!(strip_plan_marker(""), "");
}

fn agent(level: SandboxLevel) -> Agent {
    Agent::new(default_registry(), Policy::new(level), "/w".to_string(), "sys", 5, 1000, true)
}

#[test]
fn planning_pass_is_read_only_and_restored_after() {
    let mut a = agent(SandboxLevel::WorkspaceWrite);
    let run = begin_architect(&mut a, "fix the bug");
    assert_eq!(a.sandbox_level(), SandboxLevel::ReadOnly);
    assert!(!a.autonomous());
    assert!(a.last_user_text().unwrap().ends_with("# REQUEST\nfix the bug"));
    // the model answers with a plan
    let mut msgs = a.snapshot();
    msgs.push(ChatMessage::assistant("1. edit a.rs\nPLAN COMPLETE"));
    a.restore(msgs);
    let start = begin_editor(&mut a, run);
    assert_eq!(start, EditorStart::Apply);
    assert_eq!(a.sandbox_level(), SandboxLevel::WorkspaceWrite);
    assert!(a.autonomous());
    let last = a.last_user_text().unwrap();
    assert!(last.starts_with("EDITOR MODE."));
    assert!(last.ends_with("# PLAN (apply exactly)\n1. edit a.rs"));
}

#[test]
fn no_plan_runs_the_task_directly() {
    let mut a = agent(SandboxLevel::Full);
    let run = begin_architect(&mut a, "task");
    let mut msgs = a.snapshot();
    msgs.push(ChatMessage::assistant("  PLAN COMPLETE  "));
    a.restore(msgs);
    assert_eq!(begin_editor(&mut a, run), EditorStart::Direct);
    assert_eq!(a.sandbox_level(), SandboxLevel::Full);
    let h = a.snapshot();
    assert_eq!(h.last().unwrap().role, Role::User);
    assert_eq!(h.last().unwrap().content.as_deref(), Some("task"));
}
