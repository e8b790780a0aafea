use localcode::agent::Agent;
use localcode::commands::{
    context_notices, diff_notice, model_notices, parse, print_help, research_prompt, review_needs_worktree, review_prompt,
    review_request, sandbox_cmd,
    truncate, unknown_notice, web_search_args, zen, Command, Parsed, ARCHITECT_USAGE, WEB_USAGE,
};
use localcode::config::SandboxLevel;
use localcode::json::{get_str, get_u64};
use localcode::permissions::Policy;
use localcode::tools::default_registry;

fn cmd(line: &str) -> Command {
    match parse(line) {
        Parsed::Command(c) => c,
        Parsed::Prompt(p) => panic!("not a command: {p}"),
    }
}

#[test]
fn prompts_pass_through() {
    assert!(matches!(parse("hello /there"), Parsed::Prompt(p) if p == "hello /there"));
}

#[test]
fn commands_and_arguments() {
    assert!(matches!(cmd("/exit"), Command::Quit));
    assert!(matches!(cmd("/q"), Command::Quit));
    assert!(matches!(cmd("/?"), Command::Help));
    assert!(matches!(cmd("/new"), Command::Clear));
    assert!(matches!(cmd("/tokens"), Command::Context));
    assert!(matches!(cmd("/sandbox  ro "), Command::Sandbox(a) if a == "ro"));
    assert!(matches!(cmd("/compact"), Command::Compact(None)));
    assert!(matches!(cmd("/compact the api"), Command::Compact(Some(f)) if f == "the api"));
    assert!(matches!(cmd("/web"), Command::Usage(u) if u == WEB_USAGE));
    assert!(matches!(cmd("/web rust\tverus"), Command::Web(q) if q == "rust\tverus"));
    assert!(matches!(cmd("/plan"), Command::Usage(u) if u == ARCHITECT_USAGE));
    assert!(matches!(cmd("/architect do it"), Command::Architect(t) if t == "do it"));
    assert!(matches!(cmd("/research x"), Command::Research(t) if t == "x"));
    assert!(matches!(cmd("/moo"), Command::Moo));
    assert!(matches!(cmd("/ls"), Command::Unknown(n) if n == "ls"));
    assert!(matches!(cmd("/"), Command::Unknown(n) if n.is_empty()));
}

#[test]
fn sandbox_command_shows_and_sets() {
    let mut a = Agent::new(default_registry(), Policy::new(SandboxLevel::WorkspaceWrite), "/w".into(), "s", 3, 1, false);
    assert_eq!(
        sandbox_cmd("", &mut a),
        "sandbox: workspace-write (set with /sandbox read-only|workspace-write|full)"
    );
    assert_eq!(sandbox_cmd("danger", &mut a), "sandbox set to full.");
    assert_eq!(a.sandbox_level(), SandboxLevel::Full);
    assert_eq!(sandbox_cmd("max", &mut a), "unknown level 'max' — use read-only|workspace-write|full");
    assert_eq!(a.sandbox_level(), SandboxLevel::Full);
}

#[test]
fn texts() {
    assert_eq!(truncate("abcdef", 3), "abc\n…[truncated]");
    assert_eq!(truncate("abc", 3), "abc");
    assert!(review_prompt("diff").ends_with("cite file:line.\n\ndiff"));
    assert_eq!(research_prompt("x").lines().last(), Some("Topic: x"));
    assert_eq!(diff_notice("  \n"), Some("no uncommitted changes."));
    assert_eq!(diff_notice("+x"), None);
    assert_eq!(unknown_notice("foo"), "unknown command /foo — try /help");
    assert_eq!(zen(7), "Make it work, make it right, make it fast. — Kent Beck");
    assert_eq!(model_notices("m")[0], "active model: m");
    let n = context_notices("m", 3, 1000, 4000, 80, SandboxLevel::ReadOnly);
    assert_eq!(n[0], "model m · 3 msgs · ~1000 tok / 4000 ctx (80%) · sandbox read-only · (local — no $ cost)");
    assert_eq!(n.len(), 2);
    assert_eq!(context_notices("m", 3, 1, 4000, 74, SandboxLevel::Full).len(), 1);
    let help = print_help();
    assert!(help.starts_with("  \x1b[36m/help             show this help\x1b[0m\n"));
    assert!(help.ends_with("\x1b[90m(psst — try /coffee, /zen, /moo)\x1b[0m"));
    let args = web_search_args("q");
    assert_eq!(get_str(&args, "query"), Some("q"));
    assert_eq!(get_u64(&args, "max_results"), Some(6));
}

#[test]
fn review_falls_back_to_the_worktree() {
    assert!(review_needs_worktree(" \n"));
    assert!(!review_needs_worktree("diff --git a b"));
    assert_eq!(review_request("\n\t"), None);
    assert_eq!(review_request("diff x"), Some(review_prompt("diff x")));
}

#[test]
fn session_approval_is_kept_once() {
    let mut p = Policy::new(SandboxLevel::WorkspaceWrite);
    p.allow_for_session("bash");
    p.allow_for_session("bash");
    p.allow_for_session("edit_file");
    assert_eq!(p.allow, vec!["bash".to_string(), "edit_file".to_string()]);
}
