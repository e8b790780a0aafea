//! Configuration defaults, the sandbox levels and the canonical paths.

use vstd::prelude::*;
use crate::text::{chars_of, push_all, push_str, string_of};

verus! {

/// Sandbox enforcement level for tool execution.
#[derive(Debug, Clone, Copy, PartialEq, Eq, Structural)]
pub enum SandboxLevel {
    /// Only read/search tools; no writes, no bash.
    ReadOnly,
    /// Default: edits/writes/bash confined to the workspace, network off.
    WorkspaceWrite,
    /// Opt-in: unconfined.
    Full,
}

impl SandboxLevel {
    /// The default level: workspace-write.
    pub fn default_level() -> (r: SandboxLevel)
        ensures
            r == SandboxLevel::WorkspaceWrite,
    {
        SandboxLevel::WorkspaceWrite
    }

    /// The level's name as written in the config file (kebab-case).
    pub fn name(&self) -> (r: &'static str)
        ensures
            r@ == level_name(*self),
    {
        match self {
            SandboxLevel::ReadOnly => "read-only",
            SandboxLevel::WorkspaceWrite => "workspace-write",
            SandboxLevel::Full => "full",
        }
    }
}

pub open spec fn level_name(l: SandboxLevel) -> Seq<char> {
    match l {
        SandboxLevel::ReadOnly => "read-only"@,
        SandboxLevel::WorkspaceWrite => "workspace-write"@,
        SandboxLevel::Full => "full"@,
    }
}

/// Default context size in tokens.
pub fn default_ctx() -> (r: u32)
    ensures
        r == 16384,
{
    16384
}

/// Default GPU layers to offload: all.
pub fn default_ngl() -> (r: i32)
    ensures
        r == -1,
{
    -1
}

/// Default turn limit of one request.
pub fn default_max_turns() -> (r: usize)
    ensures
        r == 14,
{
    14
}

/// Default server port.
pub fn default_port() -> (r: u16)
    ensures
        r == 8757,
{
    8757
}

/// Default KV-cache quantization (never `q4_0`, which degrades tool calling).
pub fn default_kv_quant() -> (r: String)
    ensures
        r@ == "q8_0"@,
{
    String::from_str("q8_0")
}

/// Default model alias.
pub fn default_model_alias() -> (r: String)
    ensures
        r@ == "qwen2.5-coder-7b-instruct"@,
{
    String::from_str("qwen2.5-coder-7b-instruct")
}

/// `a` joined with the relative path `b` (`Path::join` for a relative `b`
/// and an `a` without a trailing slash).
pub open spec fn join_path(a: Seq<char>, b: Seq<char>) -> Seq<char> {
    if a.len() == 0 {
        b
    } else if a.last() == '/' {
        a + b
    } else {
        a + seq!['/'] + b
    }
}

pub fn join_path_exec(a: &str, b: &str) -> (r: String)
    ensures
        r@ == join_path(a@, b@),
{
    let mut v = chars_of(a);
    if v.len() > 0 && v[v.len() - 1] != '/' {
        v.push('/');
    }
    push_str(&mut v, b);
    string_of(&v)
}

/// The user's home directory (`dirs::home_dir`), as text.
#[verifier::external_body]
fn home_dir() -> Option<String> {
    dirs::home_dir().map(|p| p.to_string_lossy().into_owned())
}

/// The home directory as found (`None` when it cannot be determined), or
/// `.` in its place.
pub fn home_or_current(found: Option<String>) -> (r: String)
    ensures
        r@ == (match found {
            Some(h) => h@,
            None => "."@,
        }),
{
    match found {
        Some(h) => h,
        None => String::from_str("."),
    }
}

/// The home directory, or `.` when it cannot be determined.
pub fn home() -> (r: String)
{
    home_or_current(home_dir())
}

/// The cache directory under a home directory.
pub fn cache_dir(home: &str) -> (r: String)
    ensures
        r@ == join_path(home@, ".cache/localcode"@),
{
    join_path_exec(home, ".cache/localcode")
}

/// The model cache under a home directory.
pub fn models_dir(home: &str) -> (r: String)
    ensures
        r@ == join_path(join_path(home@, ".cache/localcode"@), "models"@),
{
    let c = cache_dir(home);
    join_path_exec(c.as_str(), "models")
}

/// The config directory: the `LOCALCODE_HOME` override if set, else
/// `~/.config/localcode`.
pub fn config_dir(override_dir: Option<&str>, home: &str) -> (r: String)
    ensures
        r@ == match override_dir {
            Some(d) => d@,
            None => join_path(home@, ".config/localcode"@),
        },
{
    match override_dir {
        Some(d) => String::from_str(d),
        None => join_path_exec(home, ".config/localcode"),
    }
}

/// The config file path.
pub fn config_path(override_dir: Option<&str>, home: &str) -> (r: String)
    ensures
        r@ == join_path(
            match override_dir {
                Some(d) => d@,
                None => join_path(home@, ".config/localcode"@),
            },
            "config.toml"@,
        ),
{
    let d = config_dir(override_dir, home);
    join_path_exec(d.as_str(), "config.toml")
}

} // verus!
