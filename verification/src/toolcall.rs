//! Reliable tool-call extraction, independent of model family.
//!
//! Structured `tool_calls` on the assistant message are used as they are.
//! Otherwise the message text is searched for `<tool_call>{json}</tool_call>`
//! blocks (an unterminated final block is repaired by taking its first
//! balanced JSON object) or, failing that, the first balanced JSON object in
//! the whole text.

use vstd::prelude::*;
use crate::engine::{
    call_view, calls_view, copy_calls, CallView, ChatMessage, FunctionCall, ToolCall,
};
use crate::json::{field, json_parse, json_print, parse_json, print_json, str_of, Json};
use crate::text::{
    chars_of, decimal, decimal_exec, find, find_exec, push_all, push_str, slice_of, string_of, trim,
    trim_exec,
};

verus! {

/// What was extracted from an assistant message.
#[derive(Debug)]
pub struct Extracted {
    pub calls: Vec<ToolCall>,
    /// Assistant prose that accompanied the message (if any).
    pub text: Option<String>,
}

// ---------------------------------------------------------------------------
// Balanced-object scanning
// ---------------------------------------------------------------------------

/// The scanner's state: brace depth, inside a string, after a backslash.
pub struct ScanState {
    pub depth: int,
    pub in_str: bool,
    pub escaped: bool,
}

/// Scanning on from index `i` in state `st`: the index of the `}` that
/// brings the depth back to zero, if any. Braces inside strings (with `\`
/// escapes) do not count.
pub open spec fn balanced_end(s: Seq<char>, i: int, st: ScanState) -> Option<int>
    decreases s.len() - i,
{
    if i < 0 || i >= s.len() {
        None
    } else {
        let c = s[i];
        if st.in_str {
            let next = if st.escaped {
                ScanState { escaped: false, ..st }
            } else if c == '\\' {
                ScanState { escaped: true, ..st }
            } else if c == '"' {
                ScanState { in_str: false, ..st }
            } else {
                st
            };
            balanced_end(s, i + 1, next)
        } else if c == '"' {
            balanced_end(s, i + 1, ScanState { in_str: true, ..st })
        } else if c == '{' {
            balanced_end(s, i + 1, ScanState { depth: st.depth + 1, ..st })
        } else if c == '}' {
            if st.depth - 1 == 0 {
                Some(i)
            } else {
                balanced_end(s, i + 1, ScanState { depth: st.depth - 1, ..st })
            }
        } else {
            balanced_end(s, i + 1, st)
        }
    }
}

/// The first balanced `{…}` substring, starting at the first `{`.
pub open spec fn first_balanced(s: Seq<char>) -> Option<Seq<char>> {
    match find(s, seq!['{']) {
        Some(start) => match balanced_end(
            s,
            start,
            ScanState { depth: 0, in_str: false, escaped: false },
        ) {
            Some(end) => Some(s.subrange(start, end + 1)),
            None => None,
        },
        None => None,
    }
}

/// Return the first balanced `{…}` substring, respecting strings and escapes.
pub fn first_balanced_json(s: &Vec<char>) -> (r: Option<Vec<char>>)
    ensures
        match r {
            Some(b) => first_balanced(s@) == Some(b@),
            None => first_balanced(s@) is None,
        },
{
    let brace = chars_of("{");
    assert(brace@ == seq!['{']) by {
        reveal_strlit("{");
    }
    let start = match find_exec(s, &brace) {
        Some(k) => k,
        None => return None,
    };
    proof {
        crate::edit::lemma_find_bounds(s@, brace@, 0);
        assert(s@.subrange(start as int, start + 1)[0] == s@[start as int]);
    }
    let mut depth: u64 = 0;
    let mut in_str = false;
    let mut escaped = false;
    let mut i = start;
    let ghost init = ScanState { depth: 0, in_str: false, escaped: false };
    while i < s.len()
        invariant
            start <= i <= s.len(),
            start < s.len(),
            s@[start as int] == '{',
            find(s@, seq!['{']) == Some(start as int),
            init == (ScanState { depth: 0, in_str: false, escaped: false }),
            depth <= i - start,
            i == start ==> depth == 0 && !in_str && !escaped,
            i > start ==> depth >= 1,
            balanced_end(s@, start as int, init) == balanced_end(
                s@,
                i as int,
                ScanState { depth: depth as int, in_str, escaped },
            ),
        decreases s.len() - i,
    {
        let c = s[i];
        if in_str {
            if escaped {
                escaped = false;
            } else if c == '\\' {
                escaped = true;
            } else if c == '"' {
                in_str = false;
            }
        } else if c == '"' {
            in_str = true;
        } else if c == '{' {
            depth += 1;
        } else if c == '}' {
            if depth == 1 {
                let b = slice_of(s, start, i + 1);
                assert(balanced_end(s@, i as int, ScanState { depth: 1, in_str, escaped }) == Some(
                    i as int,
                ));
                assert(find(s@, seq!['{']) == Some(start as int));
                assert(balanced_end(s@, start as int, init) == Some(i as int));
                assert(first_balanced(s@) == Some(s@.subrange(start as int, i + 1)));
                return Some(b);
            }
            if depth == 0 {
                // The first character scanned is the opening brace, so the
                // depth is positive whenever a closing brace is reached.
                assert(i != start);
                assert(false) by {
                    assert(balanced_end(s@, i as int, ScanState { depth: 0, in_str, escaped })
                        == Some(i as int));
                }
                return None;
            }
            depth -= 1;
        }
        i += 1;
    }
    None
}

// ---------------------------------------------------------------------------
// One JSON call object
// ---------------------------------------------------------------------------

/// A call parsed from text: the function name and the arguments text.
pub struct NamedCall {
    pub name: Seq<char>,
    pub arguments: Seq<char>,
}

/// The object that describes the call: the `function` member when that is
/// an object, else the value itself.
pub open spec fn call_object(v: Json) -> Json {
    match field(v, "function"@) {
        Some(f) => if f is Object {
            f
        } else {
            v
        },
        None => v,
    }
}

/// The arguments as text: a string value is taken as it is, any other
/// value is printed as JSON; without `arguments` or `parameters` it is `{}`.
pub open spec fn value_text(a: Json) -> Seq<char> {
    match a {
        Json::Str(t) => t@,
        _ => json_print(a),
    }
}

pub open spec fn arguments_text(obj: Json) -> Seq<char> {
    match field(obj, "arguments"@) {
        Some(a) => value_text(a),
        None => match field(obj, "parameters"@) {
            Some(p) => value_text(p),
            None => "{}"@,
        },
    }
}

/// The call described by a parsed JSON value: an object (or an object
/// under `function`) with a non-empty string `name`.
pub open spec fn call_of_value(v: Json) -> Option<NamedCall> {
    if v is Object {
        let obj = call_object(v);
        match field(obj, "name"@) {
            Some(n) => match str_of(n) {
                Some(name) => if name.len() > 0 {
                    Some(NamedCall { name, arguments: arguments_text(obj) })
                } else {
                    None
                },
                None => None,
            },
            None => None,
        }
    } else {
        None
    }
}

/// The call described by JSON text, if it parses to one.
pub open spec fn call_of_text(s: Seq<char>) -> Option<NamedCall> {
    match json_parse(s) {
        Ok(v) => call_of_value(v),
        Err(_) => None,
    }
}

/// The arguments of a value as text.
fn value_text_exec(a: &Json) -> (r: String)
    ensures
        r@ == value_text(*a),
{
    match a {
        Json::Str(t) => t.clone(),
        _ => print_json(a),
    }
}

/// The call a parsed JSON value describes: an object (or an object under
/// `function`) with a non-empty string `name`, and its arguments as text.
pub fn call_from_value(v: &Json) -> (r: Option<FunctionCall>)
    ensures
        match r {
            Some(f) => call_of_value(*v) matches Some(c) && c.name == f.name@ && c.arguments
                == f.arguments@,
            None => call_of_value(*v) is None,
        },
{
    if !v.is_object() {
        return None;
    }
    let obj: &Json = match v.get("function") {
        Some(f) => {
            if f.is_object() {
                assert(call_object(*v) == *f);
                f
            } else {
                assert(call_object(*v) == *v);
                v
            }
        },
        None => {
            assert(call_object(*v) == *v);
            v
        },
    };
    let name = match obj.get("name") {
        Some(n) => match n.as_str() {
            Some(t) => t,
            None => return None,
        },
        None => return None,
    };
    let name_c = chars_of(name);
    if name_c.len() == 0 {
        return None;
    }
    let arguments = match obj.get("arguments") {
        Some(a) => value_text_exec(a),
        None => match obj.get("parameters") {
            Some(p) => value_text_exec(p),
            None => String::from_str("{}"),
        },
    };
    Some(FunctionCall { name: String::from_str(name), arguments })
}

/// Parse one `{"name":…, "arguments"|"parameters": {…}}` object.
fn parse_one_json_call(s: &str) -> (r: Option<FunctionCall>)
    ensures
        match r {
            Some(f) => call_of_text(s@) matches Some(c) && c.name == f.name@ && c.arguments
                == f.arguments@,
            None => call_of_text(s@) is None,
        },
{
    match parse_json(s) {
        Ok(v) => call_from_value(&v),
        Err(_) => None,
    }
}


// ---------------------------------------------------------------------------
// Calls in text
// ---------------------------------------------------------------------------

pub open spec fn open_tag() -> Seq<char> {
    seq!['<', 't', 'o', 'o', 'l', '_', 'c', 'a', 'l', 'l', '>']
}

pub open spec fn close_tag() -> Seq<char> {
    seq!['<', '/', 't', 'o', 'o', 'l', '_', 'c', 'a', 'l', 'l', '>']
}

pub open spec fn opt_seq(c: Option<NamedCall>) -> Seq<NamedCall> {
    match c {
        Some(x) => seq![x],
        None => Seq::empty(),
    }
}

/// The calls in the `<tool_call>…</tool_call>` blocks of `rest`, in order;
/// blocks that do not parse are skipped. An unterminated last block
/// contributes the call in its first balanced JSON object, if any.
pub open spec fn tagged_calls(rest: Seq<char>) -> Seq<NamedCall>
    decreases rest.len(),
{
    match find(rest, open_tag()) {
        None => Seq::empty(),
        Some(s) => if 0 <= s && s + open_tag().len() <= rest.len() {
            let after = rest.subrange(s + open_tag().len(), rest.len() as int);
            match find(after, close_tag()) {
                Some(e) => if 0 <= e && e + close_tag().len() <= after.len() {
                    opt_seq(call_of_text(trim(after.subrange(0, e)))) + tagged_calls(
                        after.subrange(e + close_tag().len(), after.len() as int),
                    )
                } else {
                    Seq::empty()
                },
                None => match first_balanced(after) {
                    Some(b) => opt_seq(call_of_text(b)),
                    None => Seq::empty(),
                },
            }
        } else {
            Seq::empty()
        },
    }
}

/// The calls found in message text: those of the tagged blocks, or else the
/// one in the first balanced JSON object of the whole text.
pub open spec fn text_calls(content: Seq<char>) -> Seq<NamedCall> {
    let t = tagged_calls(content);
    if t.len() > 0 {
        t
    } else {
        match first_balanced(content) {
            Some(b) => opt_seq(call_of_text(b)),
            None => Seq::empty(),
        }
    }
}

/// The id given to the `i`-th call when it has none.
pub open spec fn call_id(i: int) -> Seq<char> {
    "call_"@ + decimal(i as nat)
}

/// A parsed call as the `i`-th tool call.
pub open spec fn numbered(c: NamedCall, i: int) -> CallView {
    CallView { id: call_id(i), call_type: "function"@, name: c.name, arguments: c.arguments }
}

pub open spec fn numbered_calls(cs: Seq<NamedCall>) -> Seq<CallView> {
    Seq::new(cs.len(), |i: int| numbered(cs[i], i))
}

/// Missing ids become `call_<i>` and missing types `function`.
pub open spec fn reindexed_call(c: CallView, i: int) -> CallView {
    CallView {
        id: if c.id.len() == 0 { call_id(i) } else { c.id },
        call_type: if c.call_type.len() == 0 { "function"@ } else { c.call_type },
        name: c.name,
        arguments: c.arguments,
    }
}

pub open spec fn reindexed(cs: Seq<CallView>) -> Seq<CallView> {
    Seq::new(cs.len(), |i: int| reindexed_call(cs[i], i))
}

fn call_from_chars(text: &Vec<char>) -> (r: Option<FunctionCall>)
    ensures
        match r {
            Some(f) => call_of_text(text@) matches Some(c) && c.name == f.name@ && c.arguments
                == f.arguments@,
            None => call_of_text(text@) is None,
        },
{
    let s = string_of(text);
    parse_one_json_call(s.as_str())
}

/// The id `call_<i>`.
pub(crate) fn call_id_exec(i: usize) -> (r: String)
    ensures
        r@ == call_id(i as int),
{
    let mut v = chars_of("call_");
    let d = decimal_exec(i as u128);
    push_all(&mut v, &d);
    string_of(&v)
}

/// Give each call an id and a type if it lacks one.
fn reindex(calls: &Vec<ToolCall>) -> (r: Vec<ToolCall>)
    ensures
        calls_view(r@) == reindexed(calls_view(calls@)),
{
    let mut r: Vec<ToolCall> = Vec::new();
    let mut i: usize = 0;
    while i < calls.len()
        invariant
            i <= calls.len(),
            calls_view(r@) == reindexed(calls_view(calls@)).take(i as int),
        decreases calls.len() - i,
    {
        let c = &calls[i];
        let id = if c.id.as_str().is_empty() {
            call_id_exec(i)
        } else {
            c.id.clone()
        };
        let call_type = if c.call_type.as_str().is_empty() {
            String::from_str("function")
        } else {
            c.call_type.clone()
        };
        let nc = ToolCall { id, call_type, function: c.function.duplicate() };
        let ghost before = calls_view(r@);
        assert(call_view(nc) == reindexed_call(call_view(calls@[i as int]), i as int));
        r.push(nc);
        assert(calls_view(r@) =~= before.push(call_view(nc)));
        assert(reindexed(calls_view(calls@)).take(i + 1) =~= reindexed(calls_view(calls@)).take(
            i as int,
        ).push(reindexed_call(calls_view(calls@)[i as int], i as int)));
        i += 1;
    }
    assert(reindexed(calls_view(calls@)).take(i as int) =~= reindexed(calls_view(calls@)));
    r
}

/// Number the parsed calls: ids `call_<i>`, type `function`.
fn number_calls(found: &Vec<FunctionCall>, Ghost(named): Ghost<Seq<NamedCall>>) -> (r: Vec<ToolCall>)
    requires
        found@.len() == named.len(),
        forall|i: int| 0 <= i < named.len() ==> (#[trigger] named[i]).name == found@[i].name@
            && named[i].arguments == found@[i].arguments@,
    ensures
        calls_view(r@) == numbered_calls(named),
{
    let mut r: Vec<ToolCall> = Vec::new();
    let mut i: usize = 0;
    while i < found.len()
        invariant
            i <= found.len(),
            found@.len() == named.len(),
            forall|i: int| 0 <= i < named.len() ==> (#[trigger] named[i]).name == found@[i].name@
                && named[i].arguments == found@[i].arguments@,
            calls_view(r@) == numbered_calls(named).take(i as int),
        decreases found.len() - i,
    {
        let nc = ToolCall {
            id: call_id_exec(i),
            call_type: String::from_str("function"),
            function: found[i].duplicate(),
        };
        let ghost before = calls_view(r@);
        assert(named[i as int].name == found@[i as int].name@);
        assert(call_view(nc) == numbered(named[i as int], i as int));
        r.push(nc);
        assert(calls_view(r@) =~= before.push(call_view(nc)));
        assert(numbered_calls(named).take(i + 1) =~= numbered_calls(named).take(i as int).push(
            numbered(named[i as int], i as int),
        ));
        i += 1;
    }
    assert(numbered_calls(named).take(i as int) =~= numbered_calls(named));
    r
}

/// Record a parsed call (if any) after those found so far.
fn push_found(
    found: &mut Vec<FunctionCall>,
    c: Option<FunctionCall>,
    Ghost(named): Ghost<Seq<NamedCall>>,
    Ghost(parsed): Ghost<Option<NamedCall>>,
) -> (r: Ghost<Seq<NamedCall>>)
    requires
        old(found)@.len() == named.len(),
        forall|i: int| 0 <= i < named.len() ==> (#[trigger] named[i]).name == old(found)@[i].name@
            && named[i].arguments == old(found)@[i].arguments@,
        match c {
            Some(f) => parsed matches Some(p) && p.name == f.name@ && p.arguments == f.arguments@,
            None => parsed is None,
        },
    ensures
        r@ == named + opt_seq(parsed),
        final(found)@.len() == r@.len(),
        forall|i: int| 0 <= i < r@.len() ==> (#[trigger] r@[i]).name == final(found)@[i].name@
            && r@[i].arguments == final(found)@[i].arguments@,
{
    match c {
        Some(f) => {
            found.push(f);
            assert forall|i: int| 0 <= i < named.len() + 1 implies (#[trigger] (named + opt_seq(
                parsed,
            ))[i]).name == found@[i].name@ && (named + opt_seq(parsed))[i].arguments
                == found@[i].arguments@ by {
                if i < named.len() {
                    assert((named + opt_seq(parsed))[i] == named[i]);
                }
            }
        },
        None => {
            assert(named + opt_seq(parsed) =~= named);
        },
    }
    Ghost(named + opt_seq(parsed))
}

/// Parse tool calls embedded as text: `<tool_call>…</tool_call>` blocks, or
/// else a bare JSON object `{"name":…, "arguments"|"parameters":…}`.
pub fn parse_text_tool_calls(content: &str) -> (r: Vec<ToolCall>)
    ensures
        calls_view(r@) == numbered_calls(text_calls(content@)),
{
    let cc = chars_of(content);
    let open = chars_of("<tool_call>");
    let close = chars_of("</tool_call>");
    assert(open@ == open_tag()) by {
        reveal_strlit("<tool_call>");
    }
    assert(close@ == close_tag()) by {
        reveal_strlit("</tool_call>");
    }
    let mut found: Vec<FunctionCall> = Vec::new();
    let ghost mut named: Seq<NamedCall> = Seq::empty();
    let mut rest = slice_of(&cc, 0, cc.len());
    assert(rest@ =~= cc@);
    loop
        invariant_except_break
            named + tagged_calls(rest@) == tagged_calls(cc@),
        invariant
            open@ == open_tag(),
            close@ == close_tag(),
            found@.len() == named.len(),
            forall|i: int| 0 <= i < named.len() ==> (#[trigger] named[i]).name == found@[i].name@
                && named[i].arguments == found@[i].arguments@,
        ensures
            named == tagged_calls(cc@),
        decreases rest.len(),
    {
        let ghost old_named = named;
        let s = match find_exec(&rest, &open) {
            Some(s) => s,
            None => {
                assert(tagged_calls(rest@) == Seq::<NamedCall>::empty());
                assert(named =~= named + tagged_calls(rest@));
                break;
            },
        };
        proof {
            crate::edit::lemma_find_bounds(rest@, open@, 0);
        }
        let after = slice_of(&rest, s + open.len(), rest.len());
        match find_exec(&after, &close) {
            Some(e) => {
                proof {
                    crate::edit::lemma_find_bounds(after@, close@, 0);
                }
                let block = slice_of(&after, 0, e);
                let tb = trim_exec(&block);
                let c = call_from_chars(&tb);
                let ghost parsed = call_of_text(tb@);
                let g = push_found(&mut found, c, Ghost(named), Ghost(parsed));
                let next = slice_of(&after, e + close.len(), after.len());
                assert(tagged_calls(rest@) == opt_seq(parsed) + tagged_calls(next@));
                proof {
                    named = g@;
                }
                assert(named + tagged_calls(next@) =~= old_named + (opt_seq(parsed) + tagged_calls(
                    next@,
                )));
                rest = next;
            },
            None => {
                let c = match first_balanced_json(&after) {
                    Some(b) => call_from_chars(&b),
                    None => None,
                };
                let ghost parsed = match first_balanced(after@) {
                    Some(b) => call_of_text(b),
                    None => None,
                };
                let g = push_found(&mut found, c, Ghost(named), Ghost(parsed));
                assert(tagged_calls(rest@) == opt_seq(parsed));
                proof {
                    named = g@;
                }
                assert(named =~= old_named + tagged_calls(rest@));
                break;
            },
        }
    }
    assert(named == tagged_calls(cc@));
    if found.len() > 0 {
        return number_calls(&found, Ghost(named));
    }
    let c = match first_balanced_json(&cc) {
        Some(b) => call_from_chars(&b),
        None => None,
    };
    let ghost parsed = match first_balanced(cc@) {
        Some(b) => call_of_text(b),
        None => None,
    };
    let g = push_found(&mut found, c, Ghost(named), Ghost(parsed));
    assert(g@ =~= opt_seq(parsed));
    number_calls(&found, g)
}

/// The structured tool calls of a message, when there are any.
pub open spec fn native_calls(msg: ChatMessage) -> Option<Seq<CallView>> {
    match msg.tool_calls {
        Some(tc) => if tc@.len() > 0 {
            Some(calls_view(tc@))
        } else {
            None
        },
        None => None,
    }
}

/// Extract tool calls from an assistant message: its structured
/// `tool_calls` when there are any, else the calls found in its text.
pub fn extract(msg: &ChatMessage) -> (r: Extracted)
    ensures
        ({
            let content = match msg.content {
                Some(c) => c@,
                None => Seq::<char>::empty(),
            };
            let prose = if trim(content).len() == 0 {
                None::<Seq<char>>
            } else {
                Some(content)
            };
            if let Some(tc) = native_calls(*msg) {
                &&& calls_view(r.calls@) == reindexed(tc)
                &&& crate::engine::opt_view(r.text) == prose
            } else {
                let found = text_calls(content);
                &&& calls_view(r.calls@) == numbered_calls(found)
                &&& crate::engine::opt_view(r.text) == (if found.len() == 0 {
                    prose
                } else {
                    None
                })
            }
        }),
{
    if let Some(tc) = &msg.tool_calls {
        if tc.len() > 0 {
            let text = match &msg.content {
                Some(c) => {
                    let cc = chars_of(c.as_str());
                    let t = trim_exec(&cc);
                    if t.len() == 0 {
                        None
                    } else {
                        Some(c.clone())
                    }
                },
                None => None,
            };
            return Extracted { calls: reindex(tc), text };
        }
    }
    assert(native_calls(*msg) is None);
    let content = match &msg.content {
        Some(c) => c.clone(),
        None => String::new(),
    };
    let calls = parse_text_tool_calls(content.as_str());
    assert(calls_view(calls@).len() == calls@.len());
    assert(numbered_calls(text_calls(content@)).len() == text_calls(content@).len());
    if calls.len() == 0 {
        let cc = chars_of(content.as_str());
        let t = trim_exec(&cc);
        Extracted { calls, text: if t.len() == 0 { None } else { Some(content) } }
    } else {
        Extracted { calls, text: None }
    }
}

} // verus!
