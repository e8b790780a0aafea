//! The tools exposed to the model: their names, descriptions, whether they
//! mutate state, their one-line summaries, the registry, and the pure parts
//! of their work (output formatting). File, process and network access
//! happen outside the library and hand their results to these functions.

use vstd::prelude::*;
use crate::config::SandboxLevel;
use crate::json::{get_str, str_field, Json};
use crate::text::{
    chars_eq, chars_of, join, join_exec, lines, lines_exec, push_all, push_str, string_of, views,
};

verus! {

/// Result of running a tool.
#[derive(Debug)]
pub struct ToolOutput {
    pub content: String,
    pub is_error: bool,
}

impl ToolOutput {
    /// A successful result.
    pub fn ok(content: String) -> (r: ToolOutput)
        ensures
            r.content@ == content@,
            !r.is_error,
    {
        ToolOutput { content, is_error: false }
    }

    /// A failed result.
    pub fn err(content: String) -> (r: ToolOutput)
        ensures
            r.content@ == content@,
            r.is_error,
    {
        ToolOutput { content, is_error: true }
    }
}

/// Execution context shared by all tools.
#[derive(Debug)]
pub struct ToolContext {
    /// Canonical, absolute workspace root. All file operations are jailed under it.
    pub workspace: String,
    /// Default shell timeout in milliseconds.
    pub bash_timeout_ms: u64,
    pub sandbox: SandboxLevel,
}

/// The tools the agent knows.
#[derive(Debug, Clone, Copy, PartialEq, Eq, Structural)]
pub enum ToolKind {
    Read,
    Write,
    Edit,
    Ls,
    Glob,
    Grep,
    Bash,
    TodoWrite,
    WebSearch,
    WebFetch,
}

pub open spec fn tool_name(k: ToolKind) -> Seq<char> {
    match k {
        ToolKind::Read => "read_file"@,
        ToolKind::Write => "write_file"@,
        ToolKind::Edit => "edit_file"@,
        ToolKind::Ls => "list_dir"@,
        ToolKind::Glob => "glob"@,
        ToolKind::Grep => "grep"@,
        ToolKind::Bash => "bash"@,
        ToolKind::TodoWrite => "todo_write"@,
        ToolKind::WebSearch => "web_search"@,
        ToolKind::WebFetch => "web_fetch"@,
    }
}

/// True if the tool mutates state (edit/write/bash): approval-gated under
/// workspace-write, refused under read-only.
pub open spec fn tool_mutating(k: ToolKind) -> bool {
    match k {
        ToolKind::Write | ToolKind::Edit | ToolKind::Bash => true,
        _ => false,
    }
}

/// `value` of the string argument `key`, or `dflt`.
pub open spec fn arg_or(args: Json, key: Seq<char>, dflt: Seq<char>) -> Seq<char> {
    match str_field(args, key) {
        Some(v) => v,
        None => dflt,
    }
}

/// The first line of a command, or the command itself if it has none.
pub open spec fn first_line(cmd: Seq<char>) -> Seq<char> {
    if lines(cmd).len() > 0 {
        lines(cmd)[0]
    } else {
        cmd
    }
}

/// The one-line human summary of a call, for the UI and approval prompt.
pub open spec fn summary_text(k: ToolKind, args: Json) -> Seq<char> {
    match k {
        ToolKind::Read => "read "@ + arg_or(args, "path"@, "?"@),
        ToolKind::Write => "write "@ + arg_or(args, "path"@, "?"@),
        ToolKind::Edit => "edit "@ + arg_or(args, "path"@, "?"@),
        ToolKind::Ls => "ls "@ + arg_or(args, "path"@, "."@),
        ToolKind::Glob => "glob "@ + arg_or(args, "pattern"@, "?"@),
        ToolKind::Grep => "grep /"@ + arg_or(args, "pattern"@, "?"@) + "/"@,
        ToolKind::Bash => "bash: "@ + first_line(arg_or(args, "command"@, "?"@)),
        ToolKind::TodoWrite => "update todo list"@,
        ToolKind::WebSearch => "web search: "@ + arg_or(args, "query"@, "?"@),
        ToolKind::WebFetch => "web fetch: "@ + arg_or(args, "url"@, "?"@),
    }
}

fn arg_or_exec(args: &Json, key: &str, dflt: &str) -> (r: Vec<char>)
    ensures
        r@ == arg_or(*args, key@, dflt@),
{
    match get_str(args, key) {
        Some(v) => chars_of(v),
        None => chars_of(dflt),
    }
}

/// What a tool does, as told to the model.
pub open spec fn description_text(k: ToolKind) -> Seq<char> {
    match k {
        ToolKind::Read => "Read a UTF-8 text file from the workspace. Optionally start at a 1-based line `offset` and read up to `limit` lines. Output is line-numbered."@,
        ToolKind::Write => "Create or overwrite a file with the given content. Creates parent directories. Approval-gated."@,
        ToolKind::Edit => "Replace an exact `old_string` with `new_string` in a file. Fails loudly if `old_string` is not found, or if it appears more than once (unless `replace_all` is true). Include enough surrounding context to make `old_string` unique."@,
        ToolKind::Ls => "List the entries of a directory in the workspace (directories suffixed with /)."@,
        ToolKind::Glob => "Find files matching a glob pattern (e.g. `src/**/*.rs`), relative to the workspace."@,
        ToolKind::Grep => "Search file contents with a regular expression (gitignore-aware). Returns `path:line:text` matches."@,
        ToolKind::Bash => "Run a shell command from the workspace root and return combined stdout/stderr. Approval-gated. Use for builds, tests, git, etc."@,
        ToolKind::TodoWrite => "Record/replace your task list for the current multi-step job. Pass an array of {content, status} where status is one of pending|in_progress|completed."@,
        ToolKind::WebSearch => "Search the web (DuckDuckGo) and return the top results as title + URL + snippet. Use this to find current information, documentation, or examples, then read a result with web_fetch."@,
        ToolKind::WebFetch => "Fetch a URL and return its readable text content (HTML stripped). Use after web_search to read a page."@,
    }
}

impl ToolKind {
    /// The name the model calls the tool by.
    pub fn name(&self) -> (r: &'static str)
        ensures
            r@ == tool_name(*self),
    {
        match self {
            ToolKind::Read => "read_file",
            ToolKind::Write => "write_file",
            ToolKind::Edit => "edit_file",
            ToolKind::Ls => "list_dir",
            ToolKind::Glob => "glob",
            ToolKind::Grep => "grep",
            ToolKind::Bash => "bash",
            ToolKind::TodoWrite => "todo_write",
            ToolKind::WebSearch => "web_search",
            ToolKind::WebFetch => "web_fetch",
        }
    }

    /// Whether the tool mutates state.
    pub fn mutating(&self) -> (r: bool)
        ensures
            r == tool_mutating(*self),
    {
        match self {
            ToolKind::Write | ToolKind::Edit | ToolKind::Bash => true,
            _ => false,
        }
    }

    /// What the tool does, as told to the model.
    pub fn description(&self) -> (r: &'static str)
        ensures
            r@ == description_text(*self),
    {
        match self {
            ToolKind::Read => "Read a UTF-8 text file from the workspace. Optionally start at a 1-based line `offset` and read up to `limit` lines. Output is line-numbered.",
            ToolKind::Write => "Create or overwrite a file with the given content. Creates parent directories. Approval-gated.",
            ToolKind::Edit => "Replace an exact `old_string` with `new_string` in a file. Fails loudly if `old_string` is not found, or if it appears more than once (unless `replace_all` is true). Include enough surrounding context to make `old_string` unique.",
            ToolKind::Ls => "List the entries of a directory in the workspace (directories suffixed with /).",
            ToolKind::Glob => "Find files matching a glob pattern (e.g. `src/**/*.rs`), relative to the workspace.",
            ToolKind::Grep => "Search file contents with a regular expression (gitignore-aware). Returns `path:line:text` matches.",
            ToolKind::Bash => "Run a shell command from the workspace root and return combined stdout/stderr. Approval-gated. Use for builds, tests, git, etc.",
            ToolKind::TodoWrite => "Record/replace your task list for the current multi-step job. Pass an array of {content, status} where status is one of pending|in_progress|completed.",
            ToolKind::WebSearch => "Search the web (DuckDuckGo) and return the top results as title + URL + snippet. Use this to find current information, documentation, or examples, then read a result with web_fetch.",
            ToolKind::WebFetch => "Fetch a URL and return its readable text content (HTML stripped). Use after web_search to read a page.",
        }
    }

    /// The one-line human summary of a call with `args`.
    pub fn summary(&self, args: &Json) -> (r: String)
        ensures
            r@ == summary_text(*self, *args),
    {
        let mut v: Vec<char> = Vec::new();
        match self {
            ToolKind::Read => {
                push_str(&mut v, "read ");
                push_all(&mut v, &arg_or_exec(args, "path", "?"));
            },
            ToolKind::Write => {
                push_str(&mut v, "write ");
                push_all(&mut v, &arg_or_exec(args, "path", "?"));
            },
            ToolKind::Edit => {
                push_str(&mut v, "edit ");
                push_all(&mut v, &arg_or_exec(args, "path", "?"));
            },
            ToolKind::Ls => {
                push_str(&mut v, "ls ");
                push_all(&mut v, &arg_or_exec(args, "path", "."));
            },
            ToolKind::Glob => {
                push_str(&mut v, "glob ");
                push_all(&mut v, &arg_or_exec(args, "pattern", "?"));
            },
            ToolKind::Grep => {
                push_str(&mut v, "grep /");
                push_all(&mut v, &arg_or_exec(args, "pattern", "?"));
                push_str(&mut v, "/");
            },
            ToolKind::Bash => {
                push_str(&mut v, "bash: ");
                let cmd = arg_or_exec(args, "command", "?");
                let ls = lines_exec(&cmd);
                if ls.len() > 0 {
                    push_all(&mut v, &ls[0]);
                } else {
                    push_all(&mut v, &cmd);
                }
            },
            ToolKind::TodoWrite => {
                push_str(&mut v, "update todo list");
            },
            ToolKind::WebSearch => {
                push_str(&mut v, "web search: ");
                push_all(&mut v, &arg_or_exec(args, "query", "?"));
            },
            ToolKind::WebFetch => {
                push_str(&mut v, "web fetch: ");
                push_all(&mut v, &arg_or_exec(args, "url", "?"));
            },
        }
        string_of(&v)
    }
}

/// The set of tools offered to the model, in order.
pub struct Registry {
    pub tools: Vec<ToolKind>,
}

/// The first tool in `ts` called `name`.
pub open spec fn lookup(ts: Seq<ToolKind>, name: Seq<char>) -> Option<ToolKind>
    decreases ts.len(),
{
    if ts.len() == 0 {
        None
    } else if tool_name(ts[0]) == name {
        Some(ts[0])
    } else {
        lookup(ts.drop_first(), name)
    }
}

/// The names as the `{:?}` of a list of strings prints them.
pub open spec fn names_debug(ts: Seq<ToolKind>) -> Seq<char> {
    "["@ + join(ts.map_values(|k: ToolKind| "\""@ + tool_name(k) + "\""@), ", "@) + "]"@
}

/// The default tool set: the file, search, shell and task tools, and the
/// web search and fetch tools.
pub fn default_registry() -> (r: Registry)
    ensures
        r.tools@ == seq![
            ToolKind::Read,
            ToolKind::Write,
            ToolKind::Edit,
            ToolKind::Ls,
            ToolKind::Glob,
            ToolKind::Grep,
            ToolKind::Bash,
            ToolKind::TodoWrite,
            ToolKind::WebSearch,
            ToolKind::WebFetch,
        ],
{
    let mut t: Vec<ToolKind> = Vec::new();
    t.push(ToolKind::Read);
    t.push(ToolKind::Write);
    t.push(ToolKind::Edit);
    t.push(ToolKind::Ls);
    t.push(ToolKind::Glob);
    t.push(ToolKind::Grep);
    t.push(ToolKind::Bash);
    t.push(ToolKind::TodoWrite);
    t.push(ToolKind::WebSearch);
    t.push(ToolKind::WebFetch);
    Registry { tools: t }
}

impl Registry {
    /// The tool called `name`, if offered.
    pub fn get(&self, name: &str) -> (r: Option<ToolKind>)
        ensures
            r == lookup(self.tools@, name@),
    {
        let n = chars_of(name);
        let mut i: usize = 0;
        assert(self.tools@.subrange(0, self.tools@.len() as int) =~= self.tools@);
        while i < self.tools.len()
            invariant
                i <= self.tools.len(),
                n@ == name@,
                lookup(self.tools@, name@) == lookup(self.tools@.subrange(i as int, self.tools@.len() as int), name@),
            decreases self.tools.len() - i,
        {
            let ghost rest = self.tools@.subrange(i as int, self.tools@.len() as int);
            assert(rest.drop_first() =~= self.tools@.subrange(i + 1, self.tools@.len() as int));
            let k = self.tools[i];
            let kn = chars_of(k.name());
            if chars_eq(&kn, &n) {
                return Some(k);
            }
            i += 1;
        }
        None
    }

    /// The names of the tools, in order.
    pub fn names(&self) -> (r: Vec<&'static str>)
        ensures
            r@.len() == self.tools@.len(),
            forall|i: int| 0 <= i < r@.len() ==> (#[trigger] r@[i])@ == tool_name(self.tools@[i]),
    {
        let mut r: Vec<&'static str> = Vec::new();
        let mut i: usize = 0;
        while i < self.tools.len()
            invariant
                i <= self.tools.len(),
                r@.len() == i,
                forall|j: int| 0 <= j < i ==> (#[trigger] r@[j])@ == tool_name(self.tools@[j]),
            decreases self.tools.len() - i,
        {
            r.push(self.tools[i].name());
            i += 1;
        }
        r
    }

    /// The names as `{:?}` prints the list of names.
    pub fn names_debug(&self) -> (r: String)
        ensures
            r@ == names_debug(self.tools@),
    {
        let mut parts: Vec<Vec<char>> = Vec::new();
        let mut i: usize = 0;
        let ghost f = |k: ToolKind| "\""@ + tool_name(k) + "\""@;
        while i < self.tools.len()
            invariant
                i <= self.tools.len(),
                f == (|k: ToolKind| "\""@ + tool_name(k) + "\""@),
                views(parts@) =~= self.tools@.take(i as int).map_values(f),
            decreases self.tools.len() - i,
        {
            let mut p: Vec<char> = Vec::new();
            push_str(&mut p, "\"");
            push_str(&mut p, self.tools[i].name());
            push_str(&mut p, "\"");
            let ghost before = views(parts@);
            parts.push(p);
            assert(views(parts@) =~= before.push(p@));
            assert(self.tools@.take(i + 1) =~= self.tools@.take(i as int).push(self.tools@[i as int]));
            assert(self.tools@.take(i + 1).map_values(f) =~= self.tools@.take(i as int).map_values(f).push(f(self.tools@[i as int])));
            i += 1;
        }
        assert(self.tools@.take(i as int) =~= self.tools@);
        let sep = chars_of(", ");
        let body = join_exec(&parts, &sep);
        let mut v: Vec<char> = Vec::new();
        push_str(&mut v, "[");
        push_all(&mut v, &body);
        push_str(&mut v, "]");
        string_of(&v)
    }
}


/// The JSON schema of a tool's arguments, as JSON text.
pub open spec fn schema_text(k: ToolKind) -> Seq<char> {
    match k {
        ToolKind::Read => "{\"type\":\"object\",\"properties\":{\"path\":{\"type\":\"string\",\"description\":\"File path relative to the workspace\"},\"offset\":{\"type\":\"integer\",\"description\":\"1-based starting line\"},\"limit\":{\"type\":\"integer\",\"description\":\"Max lines to read\"}},\"required\":[\"path\"]}"@,
        ToolKind::Write => "{\"type\":\"object\",\"properties\":{\"path\":{\"type\":\"string\"},\"content\":{\"type\":\"string\"}},\"required\":[\"path\",\"content\"]}"@,
        ToolKind::Edit => "{\"type\":\"object\",\"properties\":{\"path\":{\"type\":\"string\"},\"old_string\":{\"type\":\"string\"},\"new_string\":{\"type\":\"string\"},\"replace_all\":{\"type\":\"boolean\",\"description\":\"Replace every occurrence (default false)\"}},\"required\":[\"path\",\"old_string\",\"new_string\"]}"@,
        ToolKind::Ls => "{\"type\":\"object\",\"properties\":{\"path\":{\"type\":\"string\",\"description\":\"Directory (default workspace root)\"}},\"required\":[]}"@,
        ToolKind::Glob => "{\"type\":\"object\",\"properties\":{\"pattern\":{\"type\":\"string\"}},\"required\":[\"pattern\"]}"@,
        ToolKind::Grep => "{\"type\":\"object\",\"properties\":{\"pattern\":{\"type\":\"string\",\"description\":\"Rust regex\"},\"path\":{\"type\":\"string\",\"description\":\"Subdirectory to search (default workspace root)\"}},\"required\":[\"pattern\"]}"@,
        ToolKind::Bash => "{\"type\":\"object\",\"properties\":{\"command\":{\"type\":\"string\"},\"timeout_ms\":{\"type\":\"integer\",\"description\":\"Optional timeout in ms\"}},\"required\":[\"command\"]}"@,
        ToolKind::TodoWrite => "{\"type\":\"object\",\"properties\":{\"todos\":{\"type\":\"array\",\"items\":{\"type\":\"object\",\"properties\":{\"content\":{\"type\":\"string\"},\"status\":{\"type\":\"string\",\"enum\":[\"pending\",\"in_progress\",\"completed\"]}},\"required\":[\"content\",\"status\"]}}},\"required\":[\"todos\"]}"@,
        ToolKind::WebSearch => "{\"type\":\"object\",\"properties\":{\"query\":{\"type\":\"string\"},\"max_results\":{\"type\":\"integer\",\"description\":\"1-10 (default 5)\"}},\"required\":[\"query\"]}"@,
        ToolKind::WebFetch => "{\"type\":\"object\",\"properties\":{\"url\":{\"type\":\"string\"}},\"required\":[\"url\"]}"@,
    }
}

impl ToolKind {
    /// The JSON schema of the tool's arguments (as JSON text, for the
    /// request that advertises the tools).
    pub fn parameters(&self) -> (r: &'static str)
        ensures
            r@ == schema_text(*self),
    {
        match self {
            ToolKind::Read => "{\"type\":\"object\",\"properties\":{\"path\":{\"type\":\"string\",\"description\":\"File path relative to the workspace\"},\"offset\":{\"type\":\"integer\",\"description\":\"1-based starting line\"},\"limit\":{\"type\":\"integer\",\"description\":\"Max lines to read\"}},\"required\":[\"path\"]}",
            ToolKind::Write => "{\"type\":\"object\",\"properties\":{\"path\":{\"type\":\"string\"},\"content\":{\"type\":\"string\"}},\"required\":[\"path\",\"content\"]}",
            ToolKind::Edit => "{\"type\":\"object\",\"properties\":{\"path\":{\"type\":\"string\"},\"old_string\":{\"type\":\"string\"},\"new_string\":{\"type\":\"string\"},\"replace_all\":{\"type\":\"boolean\",\"description\":\"Replace every occurrence (default false)\"}},\"required\":[\"path\",\"old_string\",\"new_string\"]}",
            ToolKind::Ls => "{\"type\":\"object\",\"properties\":{\"path\":{\"type\":\"string\",\"description\":\"Directory (default workspace root)\"}},\"required\":[]}",
            ToolKind::Glob => "{\"type\":\"object\",\"properties\":{\"pattern\":{\"type\":\"string\"}},\"required\":[\"pattern\"]}",
            ToolKind::Grep => "{\"type\":\"object\",\"properties\":{\"pattern\":{\"type\":\"string\",\"description\":\"Rust regex\"},\"path\":{\"type\":\"string\",\"description\":\"Subdirectory to search (default workspace root)\"}},\"required\":[\"pattern\"]}",
            ToolKind::Bash => "{\"type\":\"object\",\"properties\":{\"command\":{\"type\":\"string\"},\"timeout_ms\":{\"type\":\"integer\",\"description\":\"Optional timeout in ms\"}},\"required\":[\"command\"]}",
            ToolKind::TodoWrite => "{\"type\":\"object\",\"properties\":{\"todos\":{\"type\":\"array\",\"items\":{\"type\":\"object\",\"properties\":{\"content\":{\"type\":\"string\"},\"status\":{\"type\":\"string\",\"enum\":[\"pending\",\"in_progress\",\"completed\"]}},\"required\":[\"content\",\"status\"]}}},\"required\":[\"todos\"]}",
            ToolKind::WebSearch => "{\"type\":\"object\",\"properties\":{\"query\":{\"type\":\"string\"},\"max_results\":{\"type\":\"integer\",\"description\":\"1-10 (default 5)\"}},\"required\":[\"query\"]}",
            ToolKind::WebFetch => "{\"type\":\"object\",\"properties\":{\"url\":{\"type\":\"string\"}},\"required\":[\"url\"]}",
        }
    }
}

} // verus!
