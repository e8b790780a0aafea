//! The chat protocol spoken with an OpenAI-compatible server: messages,
//! tool calls, tool specs and responses, plus the base-URL normalization.
//! (The HTTP transport itself runs outside the library.)

use vstd::prelude::*;
use crate::json::Json;
use crate::text::{chars_of, push_all, push_str, slice_of, string_of, starts_with, starts_with_exec};

verus! {

/// Who wrote a message.
#[derive(Debug, Clone, Copy, PartialEq, Eq, Structural)]
pub enum Role {
    System,
    User,
    Assistant,
    Tool,
}

/// A call of a named function with JSON-encoded arguments (a string, as in
/// the OpenAI schema).
#[derive(Debug)]
pub struct FunctionCall {
    pub name: String,
    pub arguments: String,
}

/// One tool call requested by the model.
#[derive(Debug)]
pub struct ToolCall {
    pub id: String,
    pub call_type: String,
    pub function: FunctionCall,
}

/// One chat message in OpenAI format.
#[derive(Debug)]
pub struct ChatMessage {
    pub role: Role,
    pub content: Option<String>,
    pub tool_calls: Option<Vec<ToolCall>>,
    pub tool_call_id: Option<String>,
    pub name: Option<String>,
}

/// Token accounting reported by the server.
#[derive(Debug, Clone, Copy, Default, PartialEq, Eq)]
pub struct Usage {
    pub prompt_tokens: u32,
    pub completion_tokens: u32,
    pub total_tokens: u32,
}

/// One completion choice.
#[derive(Debug)]
pub struct Choice {
    pub message: ChatMessage,
    pub finish_reason: Option<String>,
}

/// A (non-streaming) chat completion response.
#[derive(Debug)]
pub struct ChatResponse {
    pub choices: Vec<Choice>,
    pub usage: Option<Usage>,
}

/// A function advertised to the model.
#[derive(Debug)]
pub struct FunctionSpec {
    pub name: String,
    pub description: String,
    pub parameters: Json,
}

/// A tool advertised to the model.
#[derive(Debug)]
pub struct ToolSpec {
    pub spec_type: String,
    pub function: FunctionSpec,
}

/// The text of a tool call: id, type, function name and arguments.
pub struct CallView {
    pub id: Seq<char>,
    pub call_type: Seq<char>,
    pub name: Seq<char>,
    pub arguments: Seq<char>,
}

pub open spec fn call_view(c: ToolCall) -> CallView {
    CallView { id: c.id@, call_type: c.call_type@, name: c.function.name@, arguments: c.function.arguments@ }
}

pub open spec fn calls_view(cs: Seq<ToolCall>) -> Seq<CallView> {
    cs.map_values(|c: ToolCall| call_view(c))
}

pub open spec fn opt_view(o: Option<String>) -> Option<Seq<char>> {
    match o {
        Some(s) => Some(s@),
        None => None,
    }
}

/// The text of a message.
pub struct MessageView {
    pub role: Role,
    pub content: Option<Seq<char>>,
    pub tool_calls: Option<Seq<CallView>>,
    pub tool_call_id: Option<Seq<char>>,
    pub name: Option<Seq<char>>,
}

pub open spec fn message_view(m: ChatMessage) -> MessageView {
    MessageView {
        role: m.role,
        content: opt_view(m.content),
        tool_calls: match m.tool_calls {
            Some(v) => Some(calls_view(v@)),
            None => None,
        },
        tool_call_id: opt_view(m.tool_call_id),
        name: opt_view(m.name),
    }
}

pub open spec fn messages_view(ms: Seq<ChatMessage>) -> Seq<MessageView> {
    ms.map_values(|m: ChatMessage| message_view(m))
}

/// A plain message with the given role and text.
pub open spec fn simple_view(role: Role, content: Seq<char>) -> MessageView {
    MessageView { role, content: Some(content), tool_calls: None, tool_call_id: None, name: None }
}

/// A tool-result message answering the call `id` of the tool `name`.
pub open spec fn tool_result_view(id: Seq<char>, name: Seq<char>, content: Seq<char>) -> MessageView {
    MessageView {
        role: Role::Tool,
        content: Some(content),
        tool_calls: None,
        tool_call_id: Some(id),
        name: Some(name),
    }
}

/// A fresh copy of a string.
pub fn copy_string(s: &String) -> (r: String)
    ensures
        r@ == s@,
{
    s.clone()
}

pub fn copy_opt_string(s: &Option<String>) -> (r: Option<String>)
    ensures
        opt_view(r) == opt_view(*s),
{
    match s {
        Some(x) => Some(x.clone()),
        None => None,
    }
}

impl FunctionCall {
    pub fn duplicate(&self) -> (r: FunctionCall)
        ensures
            r.name@ == self.name@,
            r.arguments@ == self.arguments@,
    {
        FunctionCall { name: self.name.clone(), arguments: self.arguments.clone() }
    }
}

impl ToolCall {
    /// A copy with the same text.
    pub fn duplicate(&self) -> (r: ToolCall)
        ensures
            call_view(r) == call_view(*self),
    {
        ToolCall { id: self.id.clone(), call_type: self.call_type.clone(), function: self.function.duplicate() }
    }
}

/// A copy of a list of tool calls with the same text.
pub fn copy_calls(v: &Vec<ToolCall>) -> (r: Vec<ToolCall>)
    ensures
        calls_view(r@) == calls_view(v@),
{
    let mut r: Vec<ToolCall> = Vec::new();
    let mut i: usize = 0;
    while i < v.len()
        invariant
            i <= v.len(),
            calls_view(r@) == calls_view(v@).take(i as int),
        decreases v.len() - i,
    {
        let c = v[i].duplicate();
        let ghost before = calls_view(r@);
        r.push(c);
        assert(calls_view(r@) =~= before.push(call_view(c)));
        assert(calls_view(v@).take(i + 1) =~= calls_view(v@).take(i as int).push(call_view(v@[i as int])));
        i += 1;
    }
    assert(calls_view(v@).take(i as int) =~= calls_view(v@));
    r
}

impl ChatMessage {
    /// A copy with the same text.
    pub fn duplicate(&self) -> (r: ChatMessage)
        ensures
            message_view(r) == message_view(*self),
    {
        ChatMessage {
            role: self.role,
            content: copy_opt_string(&self.content),
            tool_calls: match &self.tool_calls {
                Some(v) => Some(copy_calls(v)),
                None => None,
            },
            tool_call_id: copy_opt_string(&self.tool_call_id),
            name: copy_opt_string(&self.name),
        }
    }

    fn simple(role: Role, content: &str) -> (r: ChatMessage)
        ensures
            message_view(r) == simple_view(role, content@),
    {
        ChatMessage {
            role,
            content: Some(String::from_str(content)),
            tool_calls: None,
            tool_call_id: None,
            name: None,
        }
    }

    /// A system message.
    pub fn system(content: &str) -> (r: ChatMessage)
        ensures
            message_view(r) == simple_view(Role::System, content@),
    {
        Self::simple(Role::System, content)
    }

    /// A user message.
    pub fn user(content: &str) -> (r: ChatMessage)
        ensures
            message_view(r) == simple_view(Role::User, content@),
    {
        Self::simple(Role::User, content)
    }

    /// An assistant message.
    pub fn assistant(content: &str) -> (r: ChatMessage)
        ensures
            message_view(r) == simple_view(Role::Assistant, content@),
    {
        Self::simple(Role::Assistant, content)
    }

    /// A `role: tool` result message answering a specific tool call.
    pub fn tool_result(tool_call_id: &str, name: &str, content: &str) -> (r: ChatMessage)
        ensures
            message_view(r) == tool_result_view(tool_call_id@, name@, content@),
    {
        ChatMessage {
            role: Role::Tool,
            content: Some(String::from_str(content)),
            tool_calls: None,
            tool_call_id: Some(String::from_str(tool_call_id)),
            name: Some(String::from_str(name)),
        }
    }
}

impl ToolSpec {
    /// Advertise a function with the given name, description and JSON-schema
    /// parameters.
    pub fn function(name: &str, description: &str, parameters: Json) -> (r: ToolSpec)
        ensures
            r.spec_type@ == "function"@,
            r.function.name@ == name@,
            r.function.description@ == description@,
            r.function.parameters == parameters,
    {
        ToolSpec {
            spec_type: String::from_str("function"),
            function: FunctionSpec {
                name: String::from_str(name),
                description: String::from_str(description),
                parameters,
            },
        }
    }
}

/// The default type of a tool call.
pub fn default_function_type() -> (r: String)
    ensures
        r@ == "function"@,
{
    String::from_str("function")
}

/// Number of trailing `'/'` characters.
pub open spec fn trailing_slashes(s: Seq<char>) -> nat
    decreases s.len(),
{
    if s.len() > 0 && s.last() == '/' {
        1 + trailing_slashes(s.drop_last())
    } else {
        0
    }
}

/// A base URL without trailing slashes and with a scheme (`host:port`
/// shorthand gets `http://`).
pub open spec fn normalized_base(s: Seq<char>) -> Seq<char> {
    let t = s.subrange(0, s.len() - trailing_slashes(s));
    if starts_with(t, "http://"@) || starts_with(t, "https://"@) {
        t
    } else {
        "http://"@ + t
    }
}

/// Normalize a server base URL (see [`normalized_base`]).
pub fn normalize_base(s: &str) -> (r: String)
    ensures
        r@ == normalized_base(s@),
{
    let v = chars_of(s);
    let mut n = v.len();
    assert(v@.subrange(0, v.len() as int) =~= v@);
    while n > 0 && v[n - 1] == '/'
        invariant
            n <= v.len(),
            trailing_slashes(v@) == (v.len() - n) + trailing_slashes(v@.subrange(0, n as int)),
        decreases n,
    {
        assert(v@.subrange(0, n as int).drop_last() =~= v@.subrange(0, n - 1));
        n -= 1;
    }
    let t = slice_of(&v, 0, n);
    let http = chars_of("http://");
    let https = chars_of("https://");
    if starts_with_exec(&t, &http) || starts_with_exec(&t, &https) {
        string_of(&t)
    } else {
        let mut r = http;
        push_all(&mut r, &t);
        string_of(&r)
    }
}

} // verus!
