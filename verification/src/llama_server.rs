//! The local `llama-server`: its command line, its address, where to find
//! it, and what to make of its health checks. (Spawning and polling run in
//! the front end.)

use vstd::prelude::*;
use crate::config::join_path;
use crate::text::{strings_view, 
    chars_of, decimal, decimal_exec, join, join_exec, lines, lines_exec, push_all, push_str,
    signed_decimal, signed_decimal_exec, string_of, views,
};

verus! {

/// How to start the server.
#[derive(Debug)]
pub struct ServerOpts {
    pub bin: String,
    pub model_path: String,
    pub host: String,
    pub port: u16,
    pub n_ctx: u32,
    pub n_gpu_layers: i32,
    /// KV-cache quant, e.g. "q8_0". Empty or "f16" → leave default (f16) and skip
    /// forcing flash-attention. NEVER "q4_0" (degrades tool calling).
    pub kv_quant: String,
    pub jinja: bool,
}

/// Whether the KV cache is quantized (anything but empty or `f16`).
pub open spec fn kv_quantized(kv: Seq<char>) -> bool {
    kv.len() > 0 && kv != "f16"@
}

/// The server's arguments: model, address, context size and GPU layers,
/// `--jinja` if asked, and for a quantized KV cache its type for keys and
/// values with flash attention on.
pub open spec fn server_args(o: ServerOpts) -> Seq<Seq<char>> {
    let base = seq![
        "-m"@, o.model_path@, "--host"@, o.host@, "--port"@, decimal(o.port as nat), "-c"@,
        decimal(o.n_ctx as nat), "-ngl"@, signed_decimal(o.n_gpu_layers as int),
    ];
    let with_jinja = if o.jinja { base.push("--jinja"@) } else { base };
    if kv_quantized(o.kv_quant@) {
        with_jinja + seq!["-ctk"@, o.kv_quant@, "-ctv"@, o.kv_quant@, "-fa"@, "on"@]
    } else {
        with_jinja
    }
}

fn push_string(v: &mut Vec<String>, s: String)
    ensures
        strings_view(final(v)@) == strings_view(old(v)@).push(s@),
{
    let ghost before = strings_view(v@);
    v.push(s);
    assert(strings_view(v@) =~= before.push(s@));
}

impl ServerOpts {
    /// The command-line arguments for the server.
    pub fn args(&self) -> (r: Vec<String>)
        ensures
            strings_view(r@) == server_args(*self),
    {
        let mut v: Vec<String> = Vec::new();
        push_string(&mut v, String::from_str("-m"));
        push_string(&mut v, self.model_path.clone());
        push_string(&mut v, String::from_str("--host"));
        push_string(&mut v, self.host.clone());
        push_string(&mut v, String::from_str("--port"));
        push_string(&mut v, string_of(&decimal_exec(self.port as u128)));
        push_string(&mut v, String::from_str("-c"));
        push_string(&mut v, string_of(&decimal_exec(self.n_ctx as u128)));
        push_string(&mut v, String::from_str("-ngl"));
        push_string(&mut v, string_of(&signed_decimal_exec(self.n_gpu_layers as i64)));
        if self.jinja {
            push_string(&mut v, String::from_str("--jinja"));
        }
        let kv = chars_of(self.kv_quant.as_str());
        let half_precision = chars_of("f16");
        if kv.len() > 0 && !crate::text::chars_eq(&kv, &half_precision) {
            push_string(&mut v, String::from_str("-ctk"));
            push_string(&mut v, self.kv_quant.clone());
            push_string(&mut v, String::from_str("-ctv"));
            push_string(&mut v, self.kv_quant.clone());
            push_string(&mut v, String::from_str("-fa"));
            push_string(&mut v, String::from_str("on"));
        }
        assert(strings_view(v@) =~= server_args(*self));
        v
    }
}

/// The address the server answers on (a wildcard bind is reached via
/// loopback).
pub open spec fn server_url(host: Seq<char>, port: u16) -> Seq<char> {
    let h = if host == "0.0.0.0"@ { "127.0.0.1"@ } else { host };
    "http://"@ + h + ":"@ + decimal(port as nat)
}

/// The base URL of a server bound to `host:port`.
pub fn base_url(host: &str, port: u16) -> (r: String)
    ensures
        r@ == server_url(host@, port),
{
    let hc = chars_of(host);
    let wildcard = chars_of("0.0.0.0");
    let mut t = chars_of("http://");
    if crate::text::chars_eq(&hc, &wildcard) {
        push_str(&mut t, "127.0.0.1");
    } else {
        push_all(&mut t, &hc);
    }
    push_str(&mut t, ":");
    push_all(&mut t, &decimal_exec(port as u128));
    string_of(&t)
}

/// The last `n` lines of a log, joined with newlines.
pub open spec fn tail_lines(text: Seq<char>, n: nat) -> Seq<char> {
    let ls = lines(text);
    let start = if ls.len() > n { ls.len() - n } else { 0 };
    join(ls.skip(start), "\n"@)
}

/// The last `n` lines of a log text.
pub fn log_tail(text: &str, n: usize) -> (r: String)
    ensures
        r@ == tail_lines(text@, n as nat),
{
    let tc = chars_of(text);
    let ls = lines_exec(&tc);
    let start = if ls.len() > n { ls.len() - n } else { 0 };
    let mut tail: Vec<Vec<char>> = Vec::new();
    let mut i = start;
    while i < ls.len()
        invariant
            start <= i <= ls@.len(),
            views(tail@) =~= views(ls@).subrange(start as int, i as int),
        decreases ls.len() - i,
    {
        let line = crate::text::slice_of(&ls[i], 0, ls[i].len());
        assert(line@ =~= ls@[i as int]@);
        let ghost before = views(tail@);
        tail.push(line);
        assert(views(tail@) =~= before.push(line@));
        assert(views(ls@)[i as int] == ls@[i as int]@);
        assert(views(ls@).subrange(start as int, i + 1) =~= views(ls@).subrange(start as int, i as int).push(
            views(ls@)[i as int],
        ));
        i += 1;
    }
    assert(views(ls@).subrange(start as int, i as int) =~= views(ls@).skip(start as int));
    let nl = chars_of("\n");
    let j = join_exec(&tail, &nl);
    string_of(&j)
}

/// What a health poll means.
#[derive(Debug)]
pub enum HealthStep {
    /// The server answers: go on.
    Ready,
    /// Not yet: poll again shortly.
    Wait,
    /// Give up with this message.
    Failed(String),
}

/// Decide on one health poll, in the order the checks are made: the process
/// died (its exit status as text), the server answered, the time is up (the
/// timeout as text). The log tail goes into a failure message.
pub fn health_step(exited: Option<&str>, healthy: bool, timed_out: bool, timeout: &str, log_tail: &str) -> (r: HealthStep)
    ensures
        match exited {
            Some(status) => r matches HealthStep::Failed(m) && m@ == "llama-server exited early ("@ + status@
                + "). Log tail:\n"@ + log_tail@,
            None => if healthy {
                r is Ready
            } else if timed_out {
                r matches HealthStep::Failed(m) && m@ == "llama-server not healthy within "@ + timeout@
                    + ". Log tail:\n"@ + log_tail@
            } else {
                r is Wait
            },
        },
{
    match exited {
        Some(status) => {
            let mut t = chars_of("llama-server exited early (");
            push_str(&mut t, status);
            push_str(&mut t, "). Log tail:\n");
            push_str(&mut t, log_tail);
            HealthStep::Failed(string_of(&t))
        },
        None => if healthy {
            HealthStep::Ready
        } else if timed_out {
            let mut t = chars_of("llama-server not healthy within ");
            push_str(&mut t, timeout);
            push_str(&mut t, ". Log tail:\n");
            push_str(&mut t, log_tail);
            HealthStep::Failed(string_of(&t))
        } else {
            HealthStep::Wait
        },
    }
}

/// Where a system-wide `llama-server` is commonly installed.
pub open spec fn common_locations() -> Seq<Seq<char>> {
    seq!["/opt/homebrew/bin/llama-server"@, "/usr/local/bin/llama-server"@, "/usr/bin/llama-server"@]
}

/// The places to look for the server, in order: the configured path, each
/// `PATH` directory joined with `llama-server`, then the common locations.
/// The first that is a file wins.
pub open spec fn server_candidates_spec(configured: Option<Seq<char>>, path_dirs: Seq<Seq<char>>) -> Seq<Seq<char>> {
    let c = match configured {
        Some(p) => seq![p],
        None => Seq::empty(),
    };
    c + path_dirs.map_values(|d: Seq<char>| join_path(d, "llama-server"@)) + common_locations()
}

/// The candidate paths for `llama-server` (see [`server_candidates_spec`]),
/// given the configured path and the directories of `PATH` (as
/// `std::env::split_paths` yields them).
pub fn server_candidates(configured: Option<&str>, path_dirs: &Vec<String>) -> (r: Vec<String>)
    ensures
        strings_view(r@) == server_candidates_spec(
            match configured {
                Some(p) => Some(p@),
                None => None,
            },
            strings_view(path_dirs@),
        ),
{
    let mut r: Vec<String> = Vec::new();
    match configured {
        Some(p) => push_string(&mut r, String::from_str(p)),
        None => {},
    }
    let ghost c = strings_view(r@);
    let ghost dv = strings_view(path_dirs@).map_values(|d: Seq<char>| join_path(d, "llama-server"@));
    let mut i: usize = 0;
    assert(c + dv.take(0) =~= c);
    while i < path_dirs.len()
        invariant
            i <= path_dirs@.len(),
            dv == strings_view(path_dirs@).map_values(|d: Seq<char>| join_path(d, "llama-server"@)),
            strings_view(r@) =~= c + dv.take(i as int),
        decreases path_dirs.len() - i,
    {
        let joined = crate::config::join_path_exec(path_dirs[i].as_str(), "llama-server");
        push_string(&mut r, joined);
        assert(dv.take(i + 1) =~= dv.take(i as int).push(dv[i as int]));
        i += 1;
    }
    assert(dv.take(i as int) =~= dv);
    push_string(&mut r, String::from_str("/opt/homebrew/bin/llama-server"));
    push_string(&mut r, String::from_str("/usr/local/bin/llama-server"));
    push_string(&mut r, String::from_str("/usr/bin/llama-server"));
    assert(strings_view(r@) =~= server_candidates_spec(
        match configured {
            Some(p) => Some(p@),
            None => None,
        },
        strings_view(path_dirs@),
    ));
    r
}

/// The message when no server can be found (with the config file's path).
pub fn not_found_message(config_path: &str) -> (r: String)
    ensures
        r@ == "llama-server not found.\n  Install llama.cpp:\n    macOS:   brew install llama.cpp\n    Linux:   see https://github.com/ggml-org/llama.cpp/releases\n  …or set `llama_server_bin` in "@
            + config_path@,
{
    let mut t = chars_of("llama-server not found.\n  Install llama.cpp:\n    macOS:   brew install llama.cpp\n    Linux:   see https://github.com/ggml-org/llama.cpp/releases\n  …or set `llama_server_bin` in ");
    push_str(&mut t, config_path);
    string_of(&t)
}

} // verus!
