//! Slash commands of the interactive prompt: what a line asks for, and the
//! texts the commands answer with. The front end runs what needs I/O (git,
//! model turns, web search).

use vstd::prelude::*;
use crate::agent::Agent;
use crate::config::{level_name, SandboxLevel};
use crate::text::{
    chars_eq, chars_of, decimal, decimal_exec, is_ws, is_ws_exec, push_all, push_str, slice_of,
    starts_with, string_of, trim, trim_exec, truncate_bytes, truncated,
};
use crate::ui::{paint, painted, CYAN, GREY};

verus! {

/// What handling a line leads to.
#[derive(Debug)]
pub enum Action {
    /// Command handled; keep looping.
    Handled,
    /// Leave the REPL.
    Quit,
    /// Not a command — treat as a normal prompt for the model.
    Passthrough(String),
}

/// A slash command with its argument.
#[derive(Debug)]
pub enum Command {
    Quit,
    Help,
    Clear,
    Context,
    Model,
    Sandbox(String),
    Diff,
    Compact(Option<String>),
    Review,
    Init,
    Web(String),
    Research(String),
    Architect(String),
    /// A command that needs an argument and got none: its usage line.
    Usage(String),
    Coffee,
    Zen,
    Moo,
    Konami,
    Sl,
    Unknown(String),
}

/// What a line of input is.
#[derive(Debug)]
pub enum Parsed {
    Prompt(String),
    Command(Command),
}

pub enum CommandV {
    Quit,
    Help,
    Clear,
    Context,
    Model,
    Sandbox(Seq<char>),
    Diff,
    Compact(Option<Seq<char>>),
    Review,
    Init,
    Web(Seq<char>),
    Research(Seq<char>),
    Architect(Seq<char>),
    Usage(Seq<char>),
    Coffee,
    Zen,
    Moo,
    Konami,
    Sl,
    Unknown(Seq<char>),
}

pub open spec fn command_view(c: Command) -> CommandV {
    match c {
        Command::Quit => CommandV::Quit,
        Command::Help => CommandV::Help,
        Command::Clear => CommandV::Clear,
        Command::Context => CommandV::Context,
        Command::Model => CommandV::Model,
        Command::Sandbox(a) => CommandV::Sandbox(a@),
        Command::Diff => CommandV::Diff,
        Command::Compact(f) => CommandV::Compact(match f {
            Some(x) => Some(x@),
            None => None,
        }),
        Command::Review => CommandV::Review,
        Command::Init => CommandV::Init,
        Command::Web(a) => CommandV::Web(a@),
        Command::Research(a) => CommandV::Research(a@),
        Command::Architect(a) => CommandV::Architect(a@),
        Command::Usage(u) => CommandV::Usage(u@),
        Command::Coffee => CommandV::Coffee,
        Command::Zen => CommandV::Zen,
        Command::Moo => CommandV::Moo,
        Command::Konami => CommandV::Konami,
        Command::Sl => CommandV::Sl,
        Command::Unknown(n) => CommandV::Unknown(n@),
    }
}

pub const WEB_USAGE: &'static str = "usage: /web <query>";
pub const RESEARCH_USAGE: &'static str = "usage: /research <topic>";
pub const ARCHITECT_USAGE: &'static str = "usage: /architect <task>  — plan read-only, then apply the plan";

/// The first whitespace character of `s` at or after `i`.
pub open spec fn ws_from(s: Seq<char>, i: int) -> Option<int>
    decreases s.len() - i,
{
    if i < 0 || i >= s.len() {
        None
    } else if is_ws(s[i]) {
        Some(i)
    } else {
        ws_from(s, i + 1)
    }
}

/// A command line body split at its first whitespace: the name, and the
/// rest trimmed.
pub open spec fn split_command(body: Seq<char>) -> (Seq<char>, Seq<char>) {
    match ws_from(body, 0) {
        Some(k) => if 0 <= k < body.len() {
            (body.take(k), trim(body.skip(k + 1)))
        } else {
            (body, Seq::empty())
        },
        None => (body, Seq::empty()),
    }
}

/// The command a name and argument ask for.
pub open spec fn command_of(cmd: Seq<char>, arg: Seq<char>) -> CommandV {
    if cmd == "exit"@ || cmd == "quit"@ || cmd == "q"@ {
        CommandV::Quit
    } else if cmd == "help"@ || cmd == "?"@ {
        CommandV::Help
    } else if cmd == "clear"@ || cmd == "new"@ {
        CommandV::Clear
    } else if cmd == "context"@ || cmd == "status"@ || cmd == "tokens"@ || cmd == "cost"@ {
        CommandV::Context
    } else if cmd == "model"@ {
        CommandV::Model
    } else if cmd == "sandbox"@ {
        CommandV::Sandbox(arg)
    } else if cmd == "diff"@ {
        CommandV::Diff
    } else if cmd == "compact"@ {
        CommandV::Compact(if arg.len() == 0 { None } else { Some(arg) })
    } else if cmd == "review"@ {
        CommandV::Review
    } else if cmd == "init"@ {
        CommandV::Init
    } else if cmd == "web"@ {
        if arg.len() == 0 { CommandV::Usage(WEB_USAGE@) } else { CommandV::Web(arg) }
    } else if cmd == "research"@ {
        if arg.len() == 0 { CommandV::Usage(RESEARCH_USAGE@) } else { CommandV::Research(arg) }
    } else if cmd == "architect"@ || cmd == "plan"@ {
        if arg.len() == 0 { CommandV::Usage(ARCHITECT_USAGE@) } else { CommandV::Architect(arg) }
    } else if cmd == "coffee"@ {
        CommandV::Coffee
    } else if cmd == "zen"@ {
        CommandV::Zen
    } else if cmd == "moo"@ {
        CommandV::Moo
    } else if cmd == "konami"@ {
        CommandV::Konami
    } else if cmd == "sl"@ {
        CommandV::Sl
    } else {
        CommandV::Unknown(cmd)
    }
}

fn ws_exec(s: &Vec<char>) -> (r: Option<usize>)
    ensures
        match r {
            Some(k) => ws_from(s@, 0) == Some(k as int) && k < s.len(),
            None => ws_from(s@, 0) is None,
        },
{
    let mut i: usize = 0;
    while i < s.len()
        invariant
            i <= s.len(),
            ws_from(s@, 0) == ws_from(s@, i as int),
        decreases s.len() - i,
    {
        if is_ws_exec(s[i]) {
            return Some(i);
        }
        i += 1;
    }
    None
}

fn is(c: &Vec<char>, name: &str) -> (r: bool)
    ensures
        r == (c@ == name@),
{
    let n = chars_of(name);
    chars_eq(c, &n)
}

/// What a line of input asks for: a prompt for the model, or (when it
/// starts with `/`) a command.
pub fn parse(input: &str) -> (r: Parsed)
    ensures
        !starts_with(input@, "/"@) ==> (r matches Parsed::Prompt(p) && p@ == input@),
        starts_with(input@, "/"@) ==> (r matches Parsed::Command(c) && command_view(c) == ({
            let (cmd, arg) = split_command(input@.skip(1));
            command_of(cmd, arg)
        })),
{
    let ic = chars_of(input);
    let slash = chars_of("/");
    if !crate::text::starts_with_exec(&ic, &slash) {
        return Parsed::Prompt(String::from_str(input));
    }
    proof {
        reveal_strlit("/");
    }
    let body = slice_of(&ic, 1, ic.len());
    assert(body@ =~= input@.skip(1));
    let (cmd, arg) = match ws_exec(&body) {
        Some(k) => {
            let c = slice_of(&body, 0, k);
            let rest = slice_of(&body, k + 1, body.len());
            assert(c@ =~= body@.take(k as int));
            assert(rest@ =~= body@.skip(k + 1));
            (c, trim_exec(&rest))
        },
        None => (body, Vec::new()),
    };
    assert(cmd@ == split_command(input@.skip(1)).0);
    assert(arg@ =~= split_command(input@.skip(1)).1);
    let a = string_of(&arg);
    let c = if is(&cmd, "exit") || is(&cmd, "quit") || is(&cmd, "q") {
        Command::Quit
    } else if is(&cmd, "help") || is(&cmd, "?") {
        Command::Help
    } else if is(&cmd, "clear") || is(&cmd, "new") {
        Command::Clear
    } else if is(&cmd, "context") || is(&cmd, "status") || is(&cmd, "tokens") || is(&cmd, "cost") {
        Command::Context
    } else if is(&cmd, "model") {
        Command::Model
    } else if is(&cmd, "sandbox") {
        Command::Sandbox(a)
    } else if is(&cmd, "diff") {
        Command::Diff
    } else if is(&cmd, "compact") {
        Command::Compact(if arg.len() == 0 { None } else { Some(a) })
    } else if is(&cmd, "review") {
        Command::Review
    } else if is(&cmd, "init") {
        Command::Init
    } else if is(&cmd, "web") {
        if arg.len() == 0 { Command::Usage(String::from_str(WEB_USAGE)) } else { Command::Web(a) }
    } else if is(&cmd, "research") {
        if arg.len() == 0 { Command::Usage(String::from_str(RESEARCH_USAGE)) } else { Command::Research(a) }
    } else if is(&cmd, "architect") || is(&cmd, "plan") {
        if arg.len() == 0 { Command::Usage(String::from_str(ARCHITECT_USAGE)) } else { Command::Architect(a) }
    } else if is(&cmd, "coffee") {
        Command::Coffee
    } else if is(&cmd, "zen") {
        Command::Zen
    } else if is(&cmd, "moo") {
        Command::Moo
    } else if is(&cmd, "konami") {
        Command::Konami
    } else if is(&cmd, "sl") {
        Command::Sl
    } else {
        Command::Unknown(string_of(&cmd))
    };
    Parsed::Command(c)
}

// ---------------------------------------------------------------------------
// What the commands say
// ---------------------------------------------------------------------------

pub const CLEARED: &'static str = "context cleared — fresh conversation.";
pub const CONTEXT_FULL: &'static str = "context is getting full — consider /compact or /clear.";
pub const MORE_MODELS: &'static str = "add others with `localcode setup` / `localcode models`.";
pub const NO_CHANGES: &'static str = "no uncommitted changes.";
pub const COMPACTING: &'static str = "compacting…";
pub const NOTHING_TO_COMPACT: &'static str = "nothing to compact yet.";
pub const COMPACTED: &'static str = "summarized earlier conversation to free context.";
pub const NO_REVIEW: &'static str = "no changes to review.";
pub const REVIEW_REQUEST: &'static str = "Review this git diff for correctness bugs and obvious improvements. Be concise; cite file:line.\n\n";
pub const INIT_REQUEST: &'static str = "Scan this project — read the README, the manifest (Cargo.toml/package.json/pyproject), and skim the main source directories — then write a concise AGENTS.md at the repo root with: what the project is, how to build/test/run it, and key conventions. Keep it under ~40 lines. Use write_file.";
pub const RESEARCH_REQUEST: &'static str = "Research this topic for me: use web_search to find sources, web_fetch to read the most relevant 1-2 pages, then give a concise summary with the source URLs.\n\nTopic: ";
pub const COFFEE: &'static str = "☕  brewing… done. caffeinated and unstoppable.";
pub const KONAMI: &'static str = "↑ ↑ ↓ ↓ ← → ← → B A  —  +30 lives. now go ship something.";
pub const SL: &'static str = "🚂  choo-choo! (that was /sl, not /ls — take a breath)";
pub const MOO: &'static str = "
         (__)
         (oo)
   /------\\/
  / |    ||
 *  /\\---/\\
    ~~   ~~
  ...have you mooed today?";

/// Cap on the diff handed to `/review` (bytes).
pub open spec fn review_cap() -> nat {
    12000
}

/// `s` cut to at most `max` bytes at a character boundary, with a
/// `…[truncated]` line appended when cut.
pub fn truncate(s: &str, max: usize) -> (r: String)
    requires
        max < usize::MAX - 4,
    ensures
        r@ == truncated(s@, max as nat, "\n…[truncated]"@),
{
    let c = chars_of(s);
    let t = truncate_bytes(&c, max, "\n…[truncated]");
    string_of(&t)
}

/// The `/review` request for a diff.
pub fn review_prompt(diff: &str) -> (r: String)
    ensures
        r@ == REVIEW_REQUEST@ + truncated(diff@, review_cap(), "\n…[truncated]"@),
{
    let mut p = chars_of(REVIEW_REQUEST);
    let t = truncate(diff, 12000);
    push_str(&mut p, t.as_str());
    string_of(&p)
}

/// Whether `/review` falls back to the working-tree diff: when the diff
/// against `HEAD` is blank.
pub fn review_needs_worktree(head_diff: &str) -> (r: bool)
    ensures
        r == (trim(head_diff@).len() == 0),
{
    trim_exec(&chars_of(head_diff)).len() == 0
}

/// The `/review` request for the chosen diff, or nothing (no changes to
/// review) when it is blank.
pub fn review_request(diff: &str) -> (r: Option<String>)
    ensures
        trim(diff@).len() == 0 ==> r is None,
        trim(diff@).len() > 0 ==> (r matches Some(p) && p@ == REVIEW_REQUEST@ + truncated(
            diff@,
            review_cap(),
            "\n…[truncated]"@,
        )),
{
    if trim_exec(&chars_of(diff)).len() == 0 {
        None
    } else {
        Some(review_prompt(diff))
    }
}

/// The `/research` request for a topic.
pub fn research_prompt(topic: &str) -> (r: String)
    ensures
        r@ == RESEARCH_REQUEST@ + topic@,
{
    let mut p = chars_of(RESEARCH_REQUEST);
    push_str(&mut p, topic);
    string_of(&p)
}

/// The arguments of the quick `/web` search.
pub fn web_search_args(query: &str) -> (r: crate::json::Json)
    ensures
        crate::json::str_field(r, "query"@) == Some(query@),
        crate::json::u64_field(r, "max_results"@) == Some(6u64),
{
    let q = String::from_str(query);
    let members: Vec<(String, crate::json::Json)> = vec![
        (String::from_str("query"), crate::json::Json::Str(q)),
        (
            String::from_str("max_results"),
            crate::json::Json::Number(crate::json::JsonNumber { text: String::from_str("6"), as_u64: Some(6) }),
        ),
    ];
    proof {
        reveal_strlit("query");
        reveal_strlit("max_results");
    }
    let ghost m = members@;
    assert(m[1].0@ == "max_results"@);
    assert(m[0].0@ != "max_results"@);
    assert(crate::json::first_with_key(m, "max_results"@, 1) == Some(m[1].1));
    assert(crate::json::first_with_key(m, "max_results"@, 0) == Some(m[1].1));
    let r = crate::json::Json::Object(members);
    assert(crate::json::field(r, "query"@) == Some(crate::json::Json::Str(q)));
    r
}

/// The `/model` notices.
pub fn model_notices(alias: &str) -> (r: Vec<String>)
    ensures
        crate::text::strings_view(r@) == seq!["active model: "@ + alias@, MORE_MODELS@],
{
    let mut a = chars_of("active model: ");
    push_str(&mut a, alias);
    let v = vec![string_of(&a), String::from_str(MORE_MODELS)];
    assert(crate::text::strings_view(v@) =~= seq!["active model: "@ + alias@, MORE_MODELS@]);
    v
}

/// The `/context` report.
pub open spec fn context_line(alias: Seq<char>, msgs: nat, tok: nat, n_ctx: nat, pct: nat, level: SandboxLevel) -> Seq<char> {
    "model "@ + alias + " · "@ + decimal(msgs) + " msgs · ~"@ + decimal(tok) + " tok / "@ + decimal(n_ctx)
        + " ctx ("@ + decimal(pct) + "%) · sandbox "@ + level_name(level) + " · (local — no $ cost)"@
}

/// The `/context` notices: the usage line, and a warning from 75% up.
/// (`pct` is the share of the context in use, in whole percent.)
pub fn context_notices(alias: &str, msgs: usize, tok: usize, n_ctx: usize, pct: u32, level: SandboxLevel) -> (r: Vec<String>)
    ensures
        crate::text::strings_view(r@) == (if pct >= 75 {
            seq![context_line(alias@, msgs as nat, tok as nat, n_ctx as nat, pct as nat, level), CONTEXT_FULL@]
        } else {
            seq![context_line(alias@, msgs as nat, tok as nat, n_ctx as nat, pct as nat, level)]
        }),
{
    let mut t = chars_of("model ");
    push_str(&mut t, alias);
    push_str(&mut t, " · ");
    push_all(&mut t, &decimal_exec(msgs as u128));
    push_str(&mut t, " msgs · ~");
    push_all(&mut t, &decimal_exec(tok as u128));
    push_str(&mut t, " tok / ");
    push_all(&mut t, &decimal_exec(n_ctx as u128));
    push_str(&mut t, " ctx (");
    push_all(&mut t, &decimal_exec(pct as u128));
    push_str(&mut t, "%) · sandbox ");
    push_str(&mut t, level.name());
    push_str(&mut t, " · (local — no $ cost)");
    let mut v: Vec<String> = Vec::new();
    v.push(string_of(&t));
    if pct >= 75 {
        v.push(String::from_str(CONTEXT_FULL));
    }
    proof {
        if pct >= 75 {
            assert(crate::text::strings_view(v@) =~= seq![
                context_line(alias@, msgs as nat, tok as nat, n_ctx as nat, pct as nat, level),
                CONTEXT_FULL@,
            ]);
        } else {
            assert(crate::text::strings_view(v@) =~= seq![
                context_line(alias@, msgs as nat, tok as nat, n_ctx as nat, pct as nat, level),
            ]);
        }
    }
    v
}

/// The notice for `/diff` when git printed only whitespace; otherwise the
/// diff is shown as it is.
pub fn diff_notice(diff: &str) -> (r: Option<&'static str>)
    ensures
        r matches Some(n) ==> n@ == NO_CHANGES@,
        r is Some <==> trim(diff@).len() == 0,
{
    let d = chars_of(diff);
    let t = trim_exec(&d);
    if t.len() == 0 {
        Some(NO_CHANGES)
    } else {
        None
    }
}

/// A level named by `/sandbox` (with its short forms).
pub open spec fn level_of(arg: Seq<char>) -> Option<SandboxLevel> {
    if arg == "read-only"@ || arg == "ro"@ {
        Some(SandboxLevel::ReadOnly)
    } else if arg == "workspace-write"@ || arg == "write"@ || arg == "ws"@ {
        Some(SandboxLevel::WorkspaceWrite)
    } else if arg == "full"@ || arg == "danger"@ {
        Some(SandboxLevel::Full)
    } else {
        None
    }
}

pub open spec fn sandbox_reply(arg: Seq<char>, current: SandboxLevel) -> Seq<char> {
    if arg.len() == 0 {
        "sandbox: "@ + level_name(current) + " (set with /sandbox read-only|workspace-write|full)"@
    } else {
        match level_of(arg) {
            Some(l) => "sandbox set to "@ + level_name(l) + "."@,
            None => "unknown level '"@ + arg + "' — use read-only|workspace-write|full"@,
        }
    }
}

/// `/sandbox [level]`: show the level, or set it (policy and tool context
/// together). Returns the notice.
pub fn sandbox_cmd(arg: &str, agent: &mut Agent) -> (r: String)
    ensures
        r@ == sandbox_reply(arg@, old(agent).cfg().level),
        arg@.len() > 0 && level_of(arg@) is Some ==> final(agent).cfg() == (crate::agent::Cfg {
            level: level_of(arg@)->0,
            ..old(agent).cfg()
        }) && final(agent).context().sandbox == level_of(arg@)->0,
        !(arg@.len() > 0 && level_of(arg@) is Some) ==> *final(agent) == *old(agent),
        final(agent).history() == old(agent).history(),
        final(agent).is_autonomous() == old(agent).is_autonomous(),
{
    let a = chars_of(arg);
    if a.len() == 0 {
        let mut t = chars_of("sandbox: ");
        push_str(&mut t, agent.sandbox_level().name());
        push_str(&mut t, " (set with /sandbox read-only|workspace-write|full)");
        return string_of(&t);
    }
    let lvl = if is(&a, "read-only") || is(&a, "ro") {
        SandboxLevel::ReadOnly
    } else if is(&a, "workspace-write") || is(&a, "write") || is(&a, "ws") {
        SandboxLevel::WorkspaceWrite
    } else if is(&a, "full") || is(&a, "danger") {
        SandboxLevel::Full
    } else {
        let mut t = chars_of("unknown level '");
        push_str(&mut t, arg);
        push_str(&mut t, "' — use read-only|workspace-write|full");
        return string_of(&t);
    };
    agent.set_sandbox(lvl);
    let mut t = chars_of("sandbox set to ");
    push_str(&mut t, lvl.name());
    push_str(&mut t, ".");
    string_of(&t)
}

/// The help block: each command in cyan, then a grey hint.
pub open spec fn help_lines() -> Seq<Seq<char>> {
    seq![
        "/help             show this help"@,
        "/clear  (/new)    reset the conversation"@,
        "/compact [focus]  summarize history to free context"@,
        "/context          context / token usage"@,
        "/model            show the active model"@,
        "/sandbox [level]  show/set sandbox (read-only|workspace-write|full)"@,
        "/diff             show uncommitted git changes"@,
        "/review           review the working-tree diff"@,
        "/init             write an AGENTS.md for this project"@,
        "/web <query>      quick web search"@,
        "/research <topic> deep web research with sources"@,
        "/architect <task> plan read-only, then apply (plan-then-edit)"@,
        "/exit   (/quit)   leave"@,
    ]
}

pub open spec fn help_block(n: int) -> Seq<char>
    decreases n,
{
    if n <= 0 {
        Seq::empty()
    } else {
        help_block(n - 1) + "  "@ + painted(CYAN@, help_lines()[n - 1]) + "\n"@
    }
}

pub open spec fn help_text() -> Seq<char> {
    help_block(13) + "  "@ + painted(GREY@, "(psst — try /coffee, /zen, /moo)"@)
}

/// The `/help` block.
pub fn print_help() -> (r: String)
    ensures
        r@ == help_text(),
{
    let lines: Vec<&str> = vec![
        "/help             show this help",
        "/clear  (/new)    reset the conversation",
        "/compact [focus]  summarize history to free context",
        "/context          context / token usage",
        "/model            show the active model",
        "/sandbox [level]  show/set sandbox (read-only|workspace-write|full)",
        "/diff             show uncommitted git changes",
        "/review           review the working-tree diff",
        "/init             write an AGENTS.md for this project",
        "/web <query>      quick web search",
        "/research <topic> deep web research with sources",
        "/architect <task> plan read-only, then apply (plan-then-edit)",
        "/exit   (/quit)   leave",
    ];
    assert(lines@.len() == 13);
    let mut block: Vec<char> = Vec::new();
    let mut i: usize = 0;
    while i < lines.len()
        invariant
            i <= lines@.len(),
            lines@.len() == 13,
            forall|k: int| 0 <= k < 13 ==> (#[trigger] lines@[k])@ == help_lines()[k],
            block@ == help_block(i as int),
        decreases lines.len() - i,
    {
        push_str(&mut block, "  ");
        let p = paint(CYAN, lines[i]);
        push_str(&mut block, p.as_str());
        push_str(&mut block, "\n");
        i += 1;
    }
    push_str(&mut block, "  ");
    let hint = paint(GREY, "(psst — try /coffee, /zen, /moo)");
    push_str(&mut block, hint.as_str());
    string_of(&block)
}

pub open spec fn zen_quotes() -> Seq<Seq<char>> {
    seq![
        "Simplicity is the soul of efficiency. — Austin Freeman"@,
        "Make it work, make it right, make it fast. — Kent Beck"@,
        "Weeks of coding can save you hours of planning."@,
        "The best code is no code at all."@,
        "Delete more than you add today."@,
        "A local model is a calm model. No rate limits, no eavesdroppers."@,
    ]
}

/// A quote picked by the sub-second part of the clock (in nanoseconds).
pub fn zen(nanos: u32) -> (r: &'static str)
    ensures
        r@ == zen_quotes()[(nanos % 6) as int],
{
    let k: Vec<&'static str> = vec![
        "Simplicity is the soul of efficiency. — Austin Freeman",
        "Make it work, make it right, make it fast. — Kent Beck",
        "Weeks of coding can save you hours of planning.",
        "The best code is no code at all.",
        "Delete more than you add today.",
        "A local model is a calm model. No rate limits, no eavesdroppers.",
    ];
    let i = (nanos % 6) as usize;
    k[i]
}

/// The notice for a command that does not exist.
pub fn unknown_notice(name: &str) -> (r: String)
    ensures
        r@ == "unknown command /"@ + name@ + " — try /help"@,
{
    let mut t = chars_of("unknown command /");
    push_str(&mut t, name);
    push_str(&mut t, " — try /help");
    string_of(&t)
}

/// Law: `/sandbox` with a level's own name (as `/sandbox` shows it) sets
/// exactly that level and says so.
pub proof fn law_level_names_set_their_level(l: SandboxLevel, current: SandboxLevel)
    ensures
        level_of(level_name(l)) == Some(l),
        sandbox_reply(level_name(l), current) == "sandbox set to "@ + level_name(l) + "."@,
{
    reveal_strlit("read-only");
    reveal_strlit("ro");
    reveal_strlit("workspace-write");
    reveal_strlit("write");
    reveal_strlit("ws");
    reveal_strlit("full");
    reveal_strlit("danger");
}

} // verus!
