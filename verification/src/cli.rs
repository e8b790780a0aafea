//! The command line: its options, and the decisions the entry point makes
//! from them (sandbox, turn limit, front end, session), plus the texts it
//! prints. Parsing argv and running the commands happen in the front end.

use vstd::prelude::*;
use crate::config::{level_name, SandboxLevel};
use crate::server_install::{Arch, Os};
use crate::text::{chars_of, decimal, decimal_exec, join, push_all, push_str, signed_decimal, signed_decimal_exec, string_of};
use crate::ui::{paint, painted, BLUE, BOLD, CYAN, GREEN, GREY, RED, YELLOW};

verus! {

/// The subcommands.
#[derive(Debug, Clone, Copy, PartialEq, Eq, Structural)]
pub enum Commands {
    /// Start the interactive coding agent (default).
    Run,
    /// Show the hardware scan, resolved model, and prerequisites.
    Doctor,
    /// List the verified models the tool can use.
    Models,
    /// Run first-run setup: hardware scan → model pick → download → config.
    Setup,
    /// Measure how reliably the configured model picks the right tool.
    Eval,
    /// Keep a warmed model server running so other runs start instantly.
    Serve,
    /// List saved sessions.
    Sessions,
}

/// The command-line options.
#[derive(Debug)]
pub struct Cli {
    /// Talk to an already-running OpenAI-compatible endpoint instead of spawning one.
    pub attach: Option<String>,
    /// Auto-approve all tool actions (dangerous; for trusted/non-interactive use).
    pub yes: bool,
    /// Run a single prompt non-interactively and exit.
    pub print: Option<String>,
    /// Resume the most recent session for this workspace.
    pub resume: bool,
    /// Route prompts through the architect→editor (plan-then-edit) flow.
    pub architect: bool,
    /// Use the inline-viewport TUI instead of the default line mode.
    pub tui: bool,
    pub command: Option<Commands>,
}

/// What the config file decides for a run.
pub struct ConfigChoices {
    pub sandbox: SandboxLevel,
    pub max_turns: usize,
    pub architect: bool,
    pub n_ctx: u32,
}

/// How an interactive or one-shot run is set up.
#[derive(Debug, PartialEq, Eq, Structural)]
pub struct RunSettings {
    /// Run the first-run setup before anything else.
    pub onboard: bool,
    pub sandbox: SandboxLevel,
    pub yolo: bool,
    pub max_turns: usize,
    pub bash_timeout_ms: u64,
    pub use_tui: bool,
    pub architect: bool,
    pub n_ctx: usize,
}

/// The settings of a run: one-shot (`--print`) runs are read-only unless
/// `--yes`; otherwise the config decides (workspace-write by default); the
/// TUI only for an interactive terminal.
pub open spec fn settings_for(cli: Cli, config: Option<ConfigChoices>, stdout_is_tty: bool) -> RunSettings {
    let one_shot = cli.print is Some;
    RunSettings {
        onboard: config is None && cli.attach is None && !one_shot,
        sandbox: if one_shot {
            if cli.yes { SandboxLevel::WorkspaceWrite } else { SandboxLevel::ReadOnly }
        } else {
            match config {
                Some(c) => c.sandbox,
                None => SandboxLevel::WorkspaceWrite,
            }
        },
        yolo: cli.yes,
        max_turns: match config {
            Some(c) => c.max_turns,
            None => 14,
        },
        bash_timeout_ms: 120000,
        use_tui: cli.tui && !one_shot && stdout_is_tty,
        architect: cli.architect || match config {
            Some(c) => c.architect,
            None => false,
        },
        n_ctx: match config {
            Some(c) => c.n_ctx as usize,
            None => 16384,
        },
    }
}

/// The settings of a run (see [`settings_for`]).
pub fn run_settings(cli: &Cli, config: Option<&ConfigChoices>, stdout_is_tty: bool) -> (r: RunSettings)
    ensures
        r == settings_for(*cli, match config {
            Some(c) => Some(*c),
            None => None,
        }, stdout_is_tty),
{
    let one_shot = cli.print.is_some();
    let sandbox = if one_shot {
        if cli.yes { SandboxLevel::WorkspaceWrite } else { SandboxLevel::ReadOnly }
    } else {
        match config {
            Some(c) => c.sandbox,
            None => SandboxLevel::WorkspaceWrite,
        }
    };
    RunSettings {
        onboard: config.is_none() && cli.attach.is_none() && !one_shot,
        sandbox,
        yolo: cli.yes,
        max_turns: match config {
            Some(c) => c.max_turns,
            None => 14,
        },
        bash_timeout_ms: 120000,
        use_tui: cli.tui && !one_shot && stdout_is_tty,
        architect: cli.architect || match config {
            Some(c) => c.architect,
            None => false,
        },
        n_ctx: match config {
            Some(c) => c.n_ctx as usize,
            None => 16384,
        },
    }
}

/// Law: a one-shot run without `--yes` is read-only and never auto-approves,
/// whatever the config says.
pub proof fn law_print_defaults_to_read_only(cli: Cli, config: Option<ConfigChoices>, tty: bool)
    requires
        cli.print is Some,
        !cli.yes,
    ensures
        settings_for(cli, config, tty).sandbox == SandboxLevel::ReadOnly,
        !settings_for(cli, config, tty).yolo,
        !settings_for(cli, config, tty).use_tui,
        !settings_for(cli, config, tty).onboard,
{
}

/// The notice after resuming a session with `n` saved messages (the system
/// prompt not counted).
pub fn resumed_notice(id: i64, n: usize) -> (r: String)
    ensures
        r@ == "resumed session #"@ + signed_decimal(id as int) + " ("@ + decimal(
            (if n > 0 { n - 1 } else { 0 }) as nat,
        ) + " messages)"@,
{
    let mut t = chars_of("resumed session #");
    push_all(&mut t, &signed_decimal_exec(id));
    push_str(&mut t, " (");
    let k = if n > 0 { n - 1 } else { 0 };
    push_all(&mut t, &decimal_exec(k as u128));
    push_str(&mut t, " messages)");
    string_of(&t)
}

/// The modes shown in the banner.
pub open spec fn modes_text(architect: bool, tui: bool) -> Seq<char> {
    let m = if tui { "tui"@ } else { "line"@ };
    if architect { "architect+"@ + m } else { m }
}

/// The banner of the interactive prompt.
pub open spec fn banner_text(alias: Seq<char>, workspace: Seq<char>, architect: bool, tui: bool) -> Seq<char> {
    painted(CYAN@, "◢◤ localcode · on-device AI coding — everything stays local"@) + "\n  "@ + painted(GREY@, "model"@)
        + " "@ + painted(BOLD@, alias) + "   "@ + painted(GREY@, "mode"@) + " "@ + painted(
        GREY@,
        modes_text(architect, tui),
    ) + "   "@ + painted(GREY@, "workspace"@) + " "@ + painted(GREY@, workspace) + "\n  "@ + painted(
        GREY@,
        "type a request, or /help · /exit to quit"@,
    )
}

/// The banner printed when the interactive prompt starts.
pub fn print_banner(alias: &str, workspace: &str, architect: bool, tui: bool) -> (r: String)
    ensures
        r@ == banner_text(alias@, workspace@, architect, tui),
{
    let mut modes = if architect { chars_of("architect+") } else { Vec::new() };
    push_str(&mut modes, if tui { "tui" } else { "line" });
    assert(modes@ =~= modes_text(architect, tui));
    let ms = string_of(&modes);
    let mut t: Vec<char> = Vec::new();
    push_str(&mut t, paint(CYAN, "◢◤ localcode · on-device AI coding — everything stays local").as_str());
    push_str(&mut t, "\n  ");
    push_str(&mut t, paint(GREY, "model").as_str());
    push_str(&mut t, " ");
    push_str(&mut t, paint(BOLD, alias).as_str());
    push_str(&mut t, "   ");
    push_str(&mut t, paint(GREY, "mode").as_str());
    push_str(&mut t, " ");
    push_str(&mut t, paint(GREY, ms.as_str()).as_str());
    push_str(&mut t, "   ");
    push_str(&mut t, paint(GREY, "workspace").as_str());
    push_str(&mut t, " ");
    push_str(&mut t, paint(GREY, workspace).as_str());
    push_str(&mut t, "\n  ");
    push_str(&mut t, paint(GREY, "type a request, or /help · /exit to quit").as_str());
    assert(t@ =~= banner_text(alias@, workspace@, architect, tui));
    string_of(&t)
}

/// The prompt of the interactive loop.
pub fn input_prompt() -> (r: String)
    ensures
        r@ == painted(BLUE@, "you›"@) + " "@,
{
    let mut t = chars_of(paint(BLUE, "you›").as_str());
    push_str(&mut t, " ");
    string_of(&t)
}

/// The address of a server on this machine at a port.
pub fn local_url(port: u16) -> (r: String)
    ensures
        r@ == "http://127.0.0.1:"@ + decimal(port as nat),
{
    let mut t = chars_of("http://127.0.0.1:");
    push_all(&mut t, &decimal_exec(port as u128));
    string_of(&t)
}

/// The model name when attaching: the configured one, or `attached`.
pub fn attach_alias(configured: Option<&str>) -> (r: String)
    ensures
        r@ == match configured {
            Some(a) => a@,
            None => "attached"@,
        },
{
    match configured {
        Some(a) => String::from_str(a),
        None => String::from_str("attached"),
    }
}

/// The message when no model can be found to serve.
pub fn no_model_message(models_dir: &str) -> (r: String)
    ensures
        r@ == "no model available — run `localcode setup` or put a GGUF in "@ + models_dir@,
{
    let mut t = chars_of("no model available — run `localcode setup` or put a GGUF in ");
    push_str(&mut t, models_dir);
    string_of(&t)
}

/// The options for the local server from the config: on loopback, with
/// the Jinja chat template.
pub fn server_opts(bin: String, model_path: String, port: u16, n_ctx: u32, n_gpu_layers: i32, kv_quant: String) -> (r: crate::llama_server::ServerOpts)
    ensures
        r.bin@ == bin@,
        r.model_path@ == model_path@,
        r.host@ == "127.0.0.1"@,
        r.port == port,
        r.n_ctx == n_ctx,
        r.n_gpu_layers == n_gpu_layers,
        r.kv_quant@ == kv_quant@,
        r.jinja,
{
    crate::llama_server::ServerOpts {
        bin,
        model_path,
        host: String::from_str("127.0.0.1"),
        port,
        n_ctx,
        n_gpu_layers,
        kv_quant,
        jinja: true,
    }
}

/// The note printed while the server starts.
pub fn starting_message(model_file: &str, n_ctx: u32, n_gpu_layers: i32) -> (r: String)
    ensures
        r@ == "starting llama-server ("@ + model_file@ + ", ctx "@ + decimal(n_ctx as nat) + ", ngl "@ + signed_decimal(
            n_gpu_layers as int,
        ) + ")…"@,
{
    let mut t = chars_of("starting llama-server (");
    push_str(&mut t, model_file);
    push_str(&mut t, ", ctx ");
    push_all(&mut t, &decimal_exec(n_ctx as u128));
    push_str(&mut t, ", ngl ");
    push_all(&mut t, &signed_decimal_exec(n_gpu_layers as i64));
    push_str(&mut t, ")…");
    string_of(&t)
}

/// What `doctor` found of the server.
pub enum ServerFound {
    /// On the path, in the config or a common place.
    Installed(String),
    /// Installed by an earlier run.
    Managed(String),
    /// Not found.
    Missing,
}

/// `doctor`'s line on the server.
pub fn doctor_server_line(found: &ServerFound, os: Os, arch: Arch) -> (r: String)
    ensures
        match *found {
            ServerFound::Installed(p) => r@ == "Server: llama-server at "@ + p@,
            ServerFound::Managed(p) => r@ == "Server: auto-installed llama-server at "@ + p@,
            ServerFound::Missing => if os != Os::Other && arch != Arch::Other {
                r@ == "Server: "@ + painted(
                    YELLOW@,
                    "not installed — will auto-download a prebuilt on first run"@,
                ) + " ("@ + painted(GREY@, "or `brew install llama.cpp`"@) + ")"@
            } else {
                r@ == "Server: "@ + painted(RED@, "llama-server NOT FOUND (install llama.cpp manually)"@)
            },
        },
{
    match found {
        ServerFound::Installed(p) => {
            let mut t = chars_of("Server: llama-server at ");
            push_str(&mut t, p.as_str());
            string_of(&t)
        },
        ServerFound::Managed(p) => {
            let mut t = chars_of("Server: auto-installed llama-server at ");
            push_str(&mut t, p.as_str());
            string_of(&t)
        },
        ServerFound::Missing => {
            let mut t = chars_of("Server: ");
            if os != Os::Other && arch != Arch::Other {
                push_str(&mut t, paint(YELLOW, "not installed — will auto-download a prebuilt on first run").as_str());
                push_str(&mut t, " (");
                push_str(&mut t, paint(GREY, "or `brew install llama.cpp`").as_str());
                push_str(&mut t, ")");
            } else {
                push_str(&mut t, paint(RED, "llama-server NOT FOUND (install llama.cpp manually)").as_str());
            }
            string_of(&t)
        },
    }
}

/// `doctor`'s line on the sandbox of `bash` (at the default level).
pub fn doctor_sandbox_line(os: Os) -> (r: String)
    ensures
        r@ == "Sandbox: bash network "@ + if crate::sandbox::enforces_network(os, SandboxLevel::WorkspaceWrite) {
            "DENIED via "@ + crate::sandbox::backend_name(os) + " (workspace-write)"@
        } else {
            "not OS-enforced on this platform — approval-gated + path-jail ("@ + crate::sandbox::backend_name(os)
                + ")"@
        },
{
    let enforced = crate::sandbox::network_enforced(os, SandboxLevel::WorkspaceWrite);
    let backend = crate::sandbox::backend_label(os);
    let mut t = chars_of("Sandbox: bash network ");
    if enforced {
        push_str(&mut t, "DENIED via ");
        push_str(&mut t, backend);
        push_str(&mut t, " (workspace-write)");
    } else {
        push_str(&mut t, "not OS-enforced on this platform — approval-gated + path-jail (");
        push_str(&mut t, backend);
        push_str(&mut t, ")");
    }
    string_of(&t)
}

/// Law: an interactive run (no `--print`) with a config runs at the
/// config's sandbox level.
pub proof fn law_interactive_run_uses_configured_level(cli: Cli, config: ConfigChoices, tty: bool)
    requires
        cli.print is None,
    ensures
        settings_for(cli, Some(config), tty).sandbox == config.sandbox,
{
}

} // verus!
