//! The tool-choice check: prompts that each call for one tool, and whether
//! the model's reply picked it.

use vstd::prelude::*;
use crate::engine::{calls_view, ChatMessage};
use crate::toolcall::extract;

verus! {

/// A prompt and the tool it should make the model call.
pub struct EvalCase {
    pub prompt: &'static str,
    pub expect_tool: &'static str,
}

pub open spec fn case_table() -> Seq<(Seq<char>, Seq<char>)> {
    seq![
        ("Read the file Cargo.toml."@, "read_file"@),
        ("List the files in the current directory."@, "list_dir"@),
        ("Search the project for the text TODO."@, "grep"@),
        ("Find all files matching the pattern src/**/*.rs."@, "glob"@),
        ("Create a new file called notes.txt containing the text hello."@, "write_file"@),
        ("Run the shell command `ls -la` to list files."@, "bash"@),
    ]
}

/// The cases, in order.
pub fn cases() -> (r: Vec<EvalCase>)
    ensures
        r@.len() == case_table().len(),
        forall|i: int| 0 <= i < r@.len() ==> (#[trigger] r@[i]).prompt@ == case_table()[i].0 && r@[i].expect_tool@
            == case_table()[i].1,
{
    vec![
        EvalCase { prompt: "Read the file Cargo.toml.", expect_tool: "read_file" },
        EvalCase { prompt: "List the files in the current directory.", expect_tool: "list_dir" },
        EvalCase { prompt: "Search the project for the text TODO.", expect_tool: "grep" },
        EvalCase { prompt: "Find all files matching the pattern src/**/*.rs.", expect_tool: "glob" },
        EvalCase { prompt: "Create a new file called notes.txt containing the text hello.", expect_tool: "write_file" },
        EvalCase { prompt: "Run the shell command `ls -la` to list files.", expect_tool: "bash" },
    ]
}

/// The name of the first tool call found in a reply (see
/// [`crate::toolcall::extract`]).
pub fn first_tool(msg: &ChatMessage) -> (r: Option<String>)
    ensures
        match r {
            Some(n) => crate::agent::reply_calls(*msg).len() > 0 && n@ == crate::agent::reply_calls(*msg)[0].name,
            None => crate::agent::reply_calls(*msg).len() == 0,
        },
{
    let ex = extract(msg);
    assert(calls_view(ex.calls@) == crate::agent::reply_calls(*msg));
    if ex.calls.len() > 0 {
        assert(calls_view(ex.calls@)[0] == crate::engine::call_view(ex.calls@[0]));
        Some(ex.calls[0].function.name.clone())
    } else {
        None
    }
}

impl EvalCase {
    /// Whether the tool called (if any) is the expected one.
    pub fn passed(&self, got: Option<&str>) -> (r: bool)
        ensures
            r == (got matches Some(g) && g@ == self.expect_tool@),
    {
        match got {
            Some(g) => {
                let a = crate::text::chars_of(g);
                let b = crate::text::chars_of(self.expect_tool);
                crate::text::chars_eq(&a, &b)
            },
            None => false,
        }
    }
}

} // verus!
