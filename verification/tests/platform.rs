use localcode::cli::{
    doctor_sandbox_line, doctor_server_line, input_prompt, local_url, print_banner, resumed_notice, run_settings,
    starting_message, Cli, ConfigChoices, ServerFound,
};
use localcode::config::SandboxLevel;
use localcode::diff::render;
use localcode::download::{hf_url, range_header, resume_plan, ResumePlan};
use localcode::eval::cases;
use localcode::llama_server::{base_url, health_step, log_tail, server_candidates, HealthStep, ServerOpts};
use localcode::sandbox::{backend_label, bash_command, network_enforced};
use localcode::server_install::{Arch, Os};
use localcode::session::{ago, user_turns};
use localcode::ui::{paint, LineUi, RED};
use localcode::web::{collapse, decode_ddg_href, fetch_answer, fetch_url, html_to_text, parse_ddg, search_url};

fn cli(print: Option<&str>, yes: bool) -> Cli {
    Cli { attach: None, yes, print: print.map(|s| s.to_string()), resume: false, architect: false, tui: true, command: None }
}

#[test]
fn one_shot_runs_are_read_only_unless_yes() {
    let cfg = ConfigChoices { sandbox: SandboxLevel::Full, max_turns: 9, architect: true, n_ctx: 8192 };
    let s = run_settings(&cli(Some("x"), false), Some(&cfg), true);
    assert_eq!(s.sandbox, SandboxLevel::ReadOnly);
    assert!(!s.use_tui && !s.onboard && !s.yolo);
    assert_eq!(s.max_turns, 9);
    assert!(s.architect);
    let s = run_settings(&cli(Some("x"), true), None, true);
    assert_eq!(s.sandbox, SandboxLevel::WorkspaceWrite);
    assert!(s.yolo);
    let s = run_settings(&cli(None, false), None, true);
    assert!(s.onboard && s.use_tui);
    assert_eq!((s.max_turns, s.n_ctx, s.bash_timeout_ms), (14, 16384, 120000));
    assert_eq!(s.sandbox, SandboxLevel::WorkspaceWrite);
}

#[test]
fn cli_texts() {
    assert_eq!(resumed_notice(7, 5), "resumed session #7 (4 messages)");
    assert_eq!(resumed_notice(7, 0), "resumed session #7 (0 messages)");
    assert_eq!(local_url(8080), "http://127.0.0.1:8080");
    assert_eq!(starting_message("m.gguf", 4096, -1), "starting llama-server (m.gguf, ctx 4096, ngl -1)…");
    assert_eq!(input_prompt(), "\x1b[34myou›\x1b[0m ");
    assert!(print_banner("m", "/w", true, false).contains("\x1b[90marchitect+line\x1b[0m"));
    assert_eq!(doctor_server_line(&ServerFound::Installed("/b".into()), Os::Linux, Arch::X64), "Server: llama-server at /b");
    assert!(doctor_server_line(&ServerFound::Missing, Os::Other, Arch::X64).contains("NOT FOUND"));
    assert_eq!(
        doctor_sandbox_line(Os::Linux),
        "Sandbox: bash network DENIED via Landlock (best-effort, needs Linux 6.7+) (workspace-write)"
    );
    assert!(doctor_sandbox_line(Os::Windows).contains("not OS-enforced"));
    assert_eq!(paint(RED, "x"), "\x1b[31mx\x1b[0m");
    assert_eq!(LineUi::new(true).preset_answer(), Some(false));
    assert_eq!(LineUi::tool_result_lines("a\nb", true), vec!["    \x1b[31ma\x1b[0m", "    \x1b[31mb\x1b[0m"]);
    assert_eq!(LineUi::tool_result_lines(&"x\n".repeat(25), false).len(), 21);
}

#[test]
fn sandbox_launch() {
    assert!(network_enforced(Os::Macos, SandboxLevel::ReadOnly));
    assert!(!network_enforced(Os::Linux, SandboxLevel::Full));
    assert!(!network_enforced(Os::Windows, SandboxLevel::ReadOnly));
    assert_eq!(backend_label(Os::Macos), "Seatbelt");
    let c = bash_command(Os::Macos, SandboxLevel::WorkspaceWrite, "ls");
    assert_eq!(c.program, "/usr/bin/sandbox-exec");
    assert_eq!(c.args, vec!["-p", "(version 1)(allow default)(deny network*)", "/bin/sh", "-c", "ls"]);
    let c = bash_command(Os::Linux, SandboxLevel::ReadOnly, "ls");
    assert_eq!((c.program.as_str(), c.landlock_deny_network), ("/bin/sh", true));
    let c = bash_command(Os::Windows, SandboxLevel::ReadOnly, "dir");
    assert_eq!(c.args, vec!["/C", "dir"]);
}

#[test]
fn server_lines() {
    let o = ServerOpts {
        bin: "/b".into(),
        model_path: "/m.gguf".into(),
        host: "0.0.0.0".into(),
        port: 8080,
        n_ctx: 4096,
        n_gpu_layers: -1,
        kv_quant: "q8_0".into(),
        jinja: true,
    };
    assert_eq!(
        o.args(),
        vec!["-m", "/m.gguf", "--host", "0.0.0.0", "--port", "8080", "-c", "4096", "-ngl", "-1", "--jinja", "-ctk", "q8_0", "-ctv", "q8_0", "-fa", "on"]
    );
    let plain = ServerOpts { kv_quant: "f16".into(), jinja: false, ..o };
    assert_eq!(plain.args().len(), 10);
    assert_eq!(base_url("0.0.0.0", 8080), "http://127.0.0.1:8080");
    assert_eq!(base_url("h", 1), "http://h:1");
    assert_eq!(log_tail("a\nb\nc\n", 2), "b\nc");
    assert_eq!(log_tail("a", 5), "a");
    assert!(matches!(health_step(Some("exit status: 1"), true, true, "3s", "t"), HealthStep::Failed(m) if m == "llama-server exited early (exit status: 1). Log tail:\nt"));
    assert!(matches!(health_step(None, true, true, "3s", "t"), HealthStep::Ready));
    assert!(matches!(health_step(None, false, false, "3s", "t"), HealthStep::Wait));
    assert!(matches!(health_step(None, false, true, "3s", "t"), HealthStep::Failed(m) if m.starts_with("llama-server not healthy within 3s.")));
    let c = server_candidates(Some("/cfg/ls"), &vec!["/usr/bin".to_string(), "/opt/x/".to_string()]);
    assert_eq!(c[0], "/cfg/ls");
    assert_eq!(c[1], "/usr/bin/llama-server");
    assert_eq!(c[2], "/opt/x/llama-server");
    assert_eq!(c.len(), 6);
}

#[test]
fn downloads_resume_only_on_partial_content() {
    assert_eq!(hf_url("o/r", "f.gguf"), "https://huggingface.co/o/r/resolve/main/f.gguf");
    assert_eq!(range_header(0), None);
    assert_eq!(range_header(100).as_deref(), Some("bytes=100-"));
    assert_eq!(resume_plan(100, 206, Some(50)), Some(ResumePlan { resuming: true, start: 100, total: Some(150) }));
    assert_eq!(resume_plan(100, 200, Some(50)), Some(ResumePlan { resuming: false, start: 0, total: Some(50) }));
    assert_eq!(resume_plan(0, 404, None), None);
}

#[test]
fn sessions_and_eval() {
    assert_eq!(ago(1000, 990), "10s ago");
    assert_eq!(ago(1000, 2000), "0s ago");
    assert_eq!(ago(10000, 10000 - 3599), "59m ago");
    assert_eq!(ago(100000, 100000 - 7200), "2h ago");
    assert_eq!(ago(1000000, 0), "11d ago");
    assert_eq!(user_turns("[{\"role\":\"user\"},{\"role\":\"assistant\"},{\"role\":\"user\"}]"), 2);
    let cs = cases();
    assert_eq!(cs.len(), 6);
    assert_eq!(cs[5].expect_tool, "bash");
    assert!(cs[0].passed(Some("read_file")));
    assert!(!cs[0].passed(None));
}

#[test]
fn diff_preview() {
    assert_eq!(render("a.rs", "x\n", "x\n"), "\x1b[1ma.rs\x1b[0m\n(no changes)");
    let d = render("a.rs", "a\nb\n", "a\nc\n");
    assert_eq!(
        d,
        "\x1b[1ma.rs\x1b[0m\n\x1b[90m  a\x1b[0m\n\x1b[31m- b\x1b[0m\n\x1b[32m+ c\x1b[0m\n"
    );
}

#[test]
fn web_pieces() {
    assert_eq!(search_url("a b&c"), "https://html.duckduckgo.com/html/?q=a%20b%26c");
    assert_eq!(search_url("é~x-_.!"), "https://html.duckduckgo.com/html/?q=%C3%A9~x-_.%21");
    assert_eq!(
        decode_ddg_href("//duckduckgo.com/l/?uddg=https%3A%2F%2Fexample.com%2Fx&rut=1"),
        "https://example.com/x"
    );
    assert_eq!(decode_ddg_href("//example.com"), "https://example.com");
    assert_eq!(decode_ddg_href("http://a"), "http://a");
    assert_eq!(fetch_url("example.com"), "https://example.com");
    assert_eq!(fetch_url("http://x"), "http://x");
    assert_eq!(collapse("  a \n\t b  "), "a b");
    let html = "<div class=\"result\"><a class=\"result__a\" href=\"//duckduckgo.com/l/?uddg=https%3A%2F%2Fr.io\"> Rust </a><a class=\"result__snippet\">fast   and\nsafe</a></div><div class=\"result\"><a class=\"result__a\" href=\"http://b\">B</a></div>";
    assert_eq!(parse_ddg(html, 5), "1. Rust\n   https://r.io\n   fast and safe\n2. B\n   http://b\n");
    assert_eq!(parse_ddg(html, 1), "1. Rust\n   https://r.io\n   fast and safe\n");
    // Even with a limit of 0 the first hit is shown.
    assert_eq!(parse_ddg(html, 0), "1. Rust\n   https://r.io\n   fast and safe\n");
    assert_eq!(html_to_text("<html><body><h1>Title</h1><p>a   b</p><p> </p></body></html>"), "Title\na b\n");
    assert_eq!(html_to_text("<html><body><div>just  text</div></body></html>"), "just text");
    assert_eq!(fetch_answer("  ").content, "(no readable text extracted)");
    assert_eq!(fetch_answer("page").content, "page");
}

#[test]
fn home_falls_back_to_current_dir() {
    assert_eq!(localcode::config::home_or_current(Some("/home/u".to_string())), "/home/u");
    assert_eq!(localcode::config::home_or_current(None), ".");
}
