//! Reassembly of a streamed chat completion (server-sent events). Complete
//! lines are cut from the byte stream as they arrive; each `data:` payload is
//! parsed, and the content and tool-call fragments of its first choice's
//! delta are accumulated into one assistant message.

use vstd::prelude::*;
use crate::engine::{CallView, ChatMessage, FunctionCall, MessageView, Role, ToolCall, calls_view, message_view};
use crate::json::{field, json_parse, parse_json, str_field, u64_field, Json};
use crate::text::{strings_view, chars_of, push_all, push_str, starts_with, string_of, trim, trim_exec};
use crate::toolcall::{call_id, call_id_exec};

verus! {

/// What `String::from_utf8_lossy` makes of some bytes.
pub uninterp spec fn utf8_lossy(bytes: Seq<u8>) -> Seq<char>;

/// Decode bytes as UTF-8 with `String::from_utf8_lossy` (bad sequences
/// become U+FFFD).
#[verifier::external_body]
fn decode_lossy(bytes: &[u8]) -> (r: String)
    ensures
        r@ == utf8_lossy(bytes@),
{
    String::from_utf8_lossy(bytes).into_owned()
}

/// The parts of one tool call gathered so far.
pub struct FragmentV {
    pub id: Seq<char>,
    pub name: Seq<char>,
    pub arguments: Seq<char>,
}

/// The message gathered so far: its text and its tool-call fragments, by
/// the index the server gives them.
pub struct StreamV {
    pub content: Seq<char>,
    pub fragments: Seq<FragmentV>,
}

pub open spec fn empty_fragment() -> FragmentV {
    FragmentV { id: Seq::empty(), name: Seq::empty(), arguments: Seq::empty() }
}

/// The fragments, grown with empty ones until index `idx` exists.
pub open spec fn grown(fs: Seq<FragmentV>, idx: int) -> Seq<FragmentV> {
    if idx < fs.len() {
        fs
    } else {
        fs + Seq::new((idx + 1 - fs.len()) as nat, |i: int| empty_fragment())
    }
}

/// The string member `key` of an optional value, or nothing.
pub open spec fn text_or_empty(o: Option<Json>, key: Seq<char>) -> Seq<char> {
    match o {
        Some(j) => match str_field(j, key) {
            Some(s) => s,
            None => Seq::empty(),
        },
        None => Seq::empty(),
    }
}

/// A fragment after one tool-call delta: a non-empty id replaces the id,
/// the name and argument pieces are appended.
pub open spec fn merged(f: FragmentV, tc: Json) -> FragmentV {
    let func = field(tc, "function"@);
    FragmentV {
        id: match str_field(tc, "id"@) {
            Some(id) => if id.len() > 0 {
                id
            } else {
                f.id
            },
            None => f.id,
        },
        name: f.name + text_or_empty(func, "name"@),
        arguments: f.arguments + text_or_empty(func, "arguments"@),
    }
}

/// The index a tool-call delta is for (0 when absent).
pub open spec fn delta_index(tc: Json) -> int {
    match u64_field(tc, "index"@) {
        Some(i) => (i as usize) as int,
        None => 0,
    }
}

pub open spec fn apply_tool_call(fs: Seq<FragmentV>, tc: Json) -> Seq<FragmentV> {
    let idx = delta_index(tc);
    let g = grown(fs, idx);
    g.update(idx, merged(g[idx], tc))
}

/// The fragments after a list of tool-call deltas, in order.
pub open spec fn apply_tool_calls(fs: Seq<FragmentV>, tcs: Seq<Json>) -> Seq<FragmentV>
    decreases tcs.len(),
{
    if tcs.len() == 0 {
        fs
    } else {
        apply_tool_call(apply_tool_calls(fs, tcs.drop_last()), tcs.last())
    }
}

/// The tool-call deltas of a delta (its `tool_calls` array).
pub open spec fn delta_tool_calls(delta: Json) -> Seq<Json> {
    match field(delta, "tool_calls"@) {
        Some(Json::Array(a)) => a@,
        _ => Seq::empty(),
    }
}

/// The state after one delta, and the content piece it carried.
pub open spec fn apply_delta(st: StreamV, delta: Json) -> (StreamV, Option<Seq<char>>) {
    let piece = str_field(delta, "content"@);
    let content = match piece {
        Some(c) => st.content + c,
        None => st.content,
    };
    (StreamV { content, fragments: apply_tool_calls(st.fragments, delta_tool_calls(delta)) }, piece)
}

/// The first element of the `choices` array.
pub open spec fn first_choice(v: Json) -> Option<Json> {
    match field(v, "choices"@) {
        Some(Json::Array(a)) => if a@.len() > 0 {
            Some(a@[0])
        } else {
            None
        },
        _ => None,
    }
}

/// `choice["delta"]`: the member, or `null`.
pub open spec fn delta_of(choice: Json) -> Json {
    match field(choice, "delta"@) {
        Some(d) => d,
        None => Json::Null,
    }
}

/// The payload of an event line: what follows `data:` (trimmed), or the
/// whole line.
pub open spec fn payload(line: Seq<char>) -> Seq<char> {
    if starts_with(line, "data:"@) {
        trim(line.skip(5))
    } else {
        line
    }
}

/// The state after one raw line, and the content piece it carried. Blank
/// lines, `[DONE]`, payloads that do not parse and events without a choice
/// change nothing.
pub open spec fn apply_line(st: StreamV, raw: Seq<u8>) -> (StreamV, Option<Seq<char>>) {
    let line = trim(utf8_lossy(raw));
    if line.len() == 0 {
        (st, None)
    } else {
        let data = payload(line);
        if data == "[DONE]"@ {
            (st, None)
        } else {
            match json_parse(data) {
                Ok(v) => match first_choice(v) {
                    Some(c) => apply_delta(st, delta_of(c)),
                    None => (st, None),
                },
                Err(_) => (st, None),
            }
        }
    }
}

/// The first `\n` in `b` at or after `i`.
pub open spec fn newline_from(b: Seq<u8>, i: int) -> Option<int>
    decreases b.len() - i,
{
    if i < 0 || i >= b.len() {
        None
    } else if b[i] == 10u8 {
        Some(i)
    } else {
        newline_from(b, i + 1)
    }
}

pub open spec fn with_piece(p: Option<Seq<char>>, ps: Seq<Seq<char>>) -> Seq<Seq<char>> {
    match p {
        Some(x) => seq![x] + ps,
        None => ps,
    }
}

/// Every complete line of `b` applied in order: the final state, the content
/// pieces in order, and the bytes after the last `\n` (kept for later).
pub open spec fn apply_bytes(st: StreamV, b: Seq<u8>) -> (StreamV, Seq<Seq<char>>, Seq<u8>)
    decreases b.len(),
{
    match newline_from(b, 0) {
        None => (st, Seq::empty(), b),
        Some(p) => {
            if 0 <= p < b.len() {
                let (s1, piece) = apply_line(st, b.take(p + 1));
                let (s2, ps, rest) = apply_bytes(s1, b.skip(p + 1));
                (s2, with_piece(piece, ps), rest)
            } else {
                (st, Seq::empty(), b)
            }
        }
    }
}

/// The fragments that got a name, in order.
pub open spec fn named(fs: Seq<FragmentV>) -> Seq<FragmentV>
    decreases fs.len(),
{
    if fs.len() == 0 {
        fs
    } else if fs.last().name.len() > 0 {
        named(fs.drop_last()).push(fs.last())
    } else {
        named(fs.drop_last())
    }
}

/// The `i`-th named fragment as a tool call (`call_<i>` when it has no id).
pub open spec fn fragment_call(f: FragmentV, i: int) -> CallView {
    CallView {
        id: if f.id.len() == 0 { call_id(i) } else { f.id },
        call_type: "function"@,
        name: f.name,
        arguments: f.arguments,
    }
}

pub open spec fn final_calls(fs: Seq<FragmentV>) -> Seq<CallView> {
    let k = named(fs);
    Seq::new(k.len(), |i: int| fragment_call(k[i], i))
}

/// The assistant message a stream amounts to.
pub open spec fn final_message(st: StreamV) -> MessageView {
    let calls = final_calls(st.fragments);
    MessageView {
        role: Role::Assistant,
        content: if st.content.len() == 0 { None } else { Some(st.content) },
        tool_calls: if calls.len() == 0 { None } else { Some(calls) },
        tool_call_id: None,
        name: None,
    }
}

/// Law: how the bytes are cut into chunks does not matter. Feeding `a` and
/// then `b` (after what `a` left over) gives the same state, the same
/// content pieces and the same leftover as feeding `a + b` at once.
pub proof fn law_chunking_is_invisible(st: StreamV, a: Seq<u8>, b: Seq<u8>)
    ensures
        ({
            let (s1, p1, r1) = apply_bytes(st, a);
            let (s2, p2, r2) = apply_bytes(s1, r1 + b);
            (s2, p1 + p2, r2) == apply_bytes(st, a + b)
        }),
    decreases a.len(),
{
    let (s1, p1, r1) = apply_bytes(st, a);
    lemma_newline_prefix(a, b, 0);
    match newline_from(a, 0) {
        None => {
            assert(r1 == a);
            assert(p1 + apply_bytes(s1, r1 + b).1 =~= apply_bytes(s1, r1 + b).1);
        },
        Some(p) => {
            lemma_newline_bounds(a, 0);
            let (t1, piece) = apply_line(st, a.take(p + 1));
            assert((a + b).take(p + 1) =~= a.take(p + 1));
            assert((a + b).skip(p + 1) =~= a.skip(p + 1) + b);
            law_chunking_is_invisible(t1, a.skip(p + 1), b);
            let (u2, ps, rest) = apply_bytes(t1, a.skip(p + 1));
            let (v2, q2, w2) = apply_bytes(u2, rest + b);
            assert(with_piece(piece, ps) + q2 =~= with_piece(piece, ps + q2));
        },
    }
}

proof fn lemma_newline_bounds(b: Seq<u8>, i: int)
    ensures
        newline_from(b, i) matches Some(p) ==> i <= p < b.len() && b[p] == 10u8,
    decreases b.len() - i,
{
    if 0 <= i < b.len() && b[i] != 10u8 {
        lemma_newline_bounds(b, i + 1);
    }
}

proof fn lemma_newline_prefix(a: Seq<u8>, b: Seq<u8>, i: int)
    requires
        0 <= i,
    ensures
        newline_from(a, i) matches Some(p) ==> newline_from(a + b, i) == Some(p),
    decreases a.len() - i,
{
    if i < a.len() && a[i] != 10u8 {
        lemma_newline_prefix(a, b, i + 1);
    }
}


struct Fragment {
    id: Vec<char>,
    name: Vec<char>,
    arguments: Vec<char>,
}

spec fn fragment_view(f: Fragment) -> FragmentV {
    FragmentV { id: f.id@, name: f.name@, arguments: f.arguments@ }
}

spec fn fragments_view(fs: Seq<Fragment>) -> Seq<FragmentV> {
    fs.map_values(|f: Fragment| fragment_view(f))
}

/// A streamed chat completion being reassembled.
pub struct ChatStream {
    buf: Vec<u8>,
    content: Vec<char>,
    fragments: Vec<Fragment>,
}

fn copy_chars(v: &Vec<char>) -> (r: Vec<char>)
    ensures
        r@ == v@,
{
    crate::text::slice_of(v, 0, v.len())
}

fn byte_slice(b: &Vec<u8>, lo: usize, hi: usize) -> (r: Vec<u8>)
    requires
        lo <= hi <= b.len(),
    ensures
        r@ == b@.subrange(lo as int, hi as int),
{
    let mut r: Vec<u8> = Vec::new();
    let mut i = lo;
    while i < hi
        invariant
            lo <= i <= hi <= b.len(),
            r@ == b@.subrange(lo as int, i as int),
        decreases hi - i,
    {
        r.push(b[i]);
        i += 1;
    }
    r
}

fn find_newline(b: &Vec<u8>) -> (r: Option<usize>)
    ensures
        match r {
            Some(p) => newline_from(b@, 0) == Some(p as int),
            None => newline_from(b@, 0) is None,
        },
{
    let mut i: usize = 0;
    while i < b.len()
        invariant
            i <= b.len(),
            newline_from(b@, 0) == newline_from(b@, i as int),
        decreases b.len() - i,
    {
        if b[i] == 10u8 {
            return Some(i);
        }
        i += 1;
    }
    None
}

/// The first element of the `choices` array of an event.
fn first_choice_exec(v: &Json) -> (r: Option<&Json>)
    ensures
        match r {
            Some(c) => first_choice(*v) == Some(*c),
            None => first_choice(*v) is None,
        },
{
    match v.get("choices") {
        Some(Json::Array(a)) => if a.len() > 0 {
            Some(&a[0])
        } else {
            None
        },
        _ => None,
    }
}

impl ChatStream {
    pub closed spec fn view(&self) -> StreamV {
        StreamV { content: self.content@, fragments: fragments_view(self.fragments@) }
    }

    /// The bytes after the last complete line, kept for the next chunk.
    pub closed spec fn pending(&self) -> Seq<u8> {
        self.buf@
    }

    /// An empty stream.
    pub fn new() -> (r: ChatStream)
        ensures
            r.view() == (StreamV { content: Seq::empty(), fragments: Seq::empty() }),
            r.pending() == Seq::<u8>::empty(),
    {
        let r = ChatStream { buf: Vec::new(), content: Vec::new(), fragments: Vec::new() };
        assert(fragments_view(r.fragments@) =~= Seq::empty());
        r
    }

    fn apply_tool_call_exec(&mut self, tc: &Json)
        ensures
            final(self).view() == (StreamV {
                fragments: apply_tool_call(old(self).view().fragments, *tc),
                ..old(self).view()
            }),
            final(self).buf@ == old(self).buf@,
    {
        let idx: usize = match crate::json::get_u64(tc, "index") {
            Some(i) => i as usize,
            None => 0,
        };
        let ghost fs0 = self.view().fragments;
        while self.fragments.len() <= idx
            invariant
                self.content@ == old(self).content@,
                self.buf@ == old(self).buf@,
                fs0 == old(self).view().fragments,
                fragments_view(self.fragments@) =~= fs0 + Seq::new(
                    (self.fragments@.len() - fs0.len()) as nat,
                    |i: int| empty_fragment(),
                ),
                self.fragments@.len() >= fs0.len(),
                fs0.len() <= idx ==> self.fragments@.len() <= idx + 1,
                fs0.len() > idx ==> self.fragments@.len() == fs0.len(),
            decreases idx + 1 - self.fragments@.len(),
        {
            let ghost before = fragments_view(self.fragments@);
            self.fragments.push(Fragment { id: Vec::new(), name: Vec::new(), arguments: Vec::new() });
            assert(fragments_view(self.fragments@) =~= before.push(empty_fragment()));
        }
        let ghost g = grown(fs0, idx as int);
        assert(fragments_view(self.fragments@) =~= g);
        let old_f = &self.fragments[idx];
        let mut id = copy_chars(&old_f.id);
        match crate::json::get_str(tc, "id") {
            Some(s) => {
                let c = chars_of(s);
                if c.len() > 0 {
                    id = c;
                }
            },
            None => {},
        }
        let mut name = copy_chars(&old_f.name);
        let mut arguments = copy_chars(&old_f.arguments);
        match tc.get("function") {
            Some(func) => {
                match crate::json::get_str(func, "name") {
                    Some(n) => push_str(&mut name, n),
                    None => {},
                }
                match crate::json::get_str(func, "arguments") {
                    Some(a) => push_str(&mut arguments, a),
                    None => {},
                }
            },
            None => {},
        }
        let nf = Fragment { id, name, arguments };
        assert(fragment_view(nf) == merged(g[idx as int], *tc));
        let ghost before = fragments_view(self.fragments@);
        self.fragments.set(idx, nf);
        assert(fragments_view(self.fragments@) =~= before.update(idx as int, fragment_view(nf)));
    }

    fn apply_delta_exec(&mut self, delta: &Json) -> (r: Option<String>)
        ensures
            final(self).view() == apply_delta(old(self).view(), *delta).0,
            crate::engine::opt_view(r) == apply_delta(old(self).view(), *delta).1,
            final(self).buf@ == old(self).buf@,
    {
        let piece = crate::json::get_str(delta, "content");
        let r = match piece {
            Some(c) => {
                push_str(&mut self.content, c);
                Some(String::from_str(c))
            },
            None => None,
        };
        let ghost mid = self.view();
        match delta.get("tool_calls") {
            Some(Json::Array(a)) => {
                let mut i: usize = 0;
                assert(a@.take(0) =~= Seq::<Json>::empty());
                while i < a.len()
                    invariant
                        i <= a@.len(),
                        self.buf@ == old(self).buf@,
                        self.view() == (StreamV {
                            fragments: apply_tool_calls(mid.fragments, a@.take(i as int)),
                            ..mid
                        }),
                    decreases a.len() - i,
                {
                    self.apply_tool_call_exec(&a[i]);
                    assert(a@.take(i + 1).drop_last() =~= a@.take(i as int));
                    i += 1;
                }
                assert(a@.take(i as int) =~= a@);
            },
            _ => {},
        }
        r
    }

    /// Apply one raw line; the content piece it carried, if any.
    fn apply_line_exec(&mut self, raw: &Vec<u8>) -> (r: Option<String>)
        ensures
            final(self).view() == apply_line(old(self).view(), raw@).0,
            crate::engine::opt_view(r) == apply_line(old(self).view(), raw@).1,
            final(self).buf@ == old(self).buf@,
    {
        let s = decode_lossy(raw.as_slice());
        let sc = chars_of(s.as_str());
        let line = trim_exec(&sc);
        if line.len() == 0 {
            return None;
        }
        let prefix = chars_of("data:");
        proof {
            reveal_strlit("data:");
        }
        let data = if crate::text::starts_with_exec(&line, &prefix) {
            let rest = crate::text::slice_of(&line, 5, line.len());
            assert(rest@ =~= line@.skip(5));
            trim_exec(&rest)
        } else {
            line
        };
        let done = chars_of("[DONE]");
        if crate::text::chars_eq(&data, &done) {
            return None;
        }
        let ds = string_of(&data);
        match parse_json(ds.as_str()) {
            Err(_) => None,
            Ok(v) => match first_choice_exec(&v) {
                None => None,
                Some(c) => match c.get("delta") {
                    Some(d) => self.apply_delta_exec(d),
                    None => {
                        let null = Json::Null;
                        assert(str_field(Json::Null, "content"@) is None);
                        assert(delta_tool_calls(Json::Null) =~= Seq::empty());
                        self.apply_delta_exec(&null)
                    },
                },
            },
        }
    }

    /// Take in the next chunk of the response body: every line it completes
    /// is applied in order. Returns the content pieces, in order, for
    /// display as they arrive.
    pub fn feed(&mut self, chunk: &[u8]) -> (r: Vec<String>)
        ensures
            ({
                let (s, ps, rest) = apply_bytes(old(self).view(), old(self).pending() + chunk@);
                &&& final(self).view() == s
                &&& strings_view(r@) == ps
                &&& final(self).pending() == rest
            }),
    {
        let ghost target = apply_bytes(self.view(), self.buf@ + chunk@);
        let mut j: usize = 0;
        let ghost start = self.buf@;
        while j < chunk.len()
            invariant
                j <= chunk@.len(),
                self.buf@ == start + chunk@.take(j as int),
                self.view() == old(self).view(),
            decreases chunk.len() - j,
        {
            self.buf.push(chunk[j]);
            assert(chunk@.take(j + 1) =~= chunk@.take(j as int).push(chunk@[j as int]));
            j += 1;
        }
        assert(chunk@.take(j as int) =~= chunk@);
        let mut pieces: Vec<String> = Vec::new();
        assert(strings_view(pieces@) =~= Seq::<Seq<char>>::empty());
        assert(strings_view(pieces@) + target.1 =~= target.1);
        loop
            invariant
                ({
                    let (s, ps, rest) = apply_bytes(self.view(), self.buf@);
                    &&& s == target.0
                    &&& strings_view(pieces@) + ps == target.1
                    &&& rest == target.2
                }),
            ensures
                self.view() == target.0,
                strings_view(pieces@) == target.1,
                self.buf@ == target.2,
            decreases self.buf@.len(),
        {
            match find_newline(&self.buf) {
                None => {
                    assert(strings_view(pieces@) + Seq::<Seq<char>>::empty() =~= strings_view(pieces@));
                    break;
                },
                Some(p) => {
                    proof {
                        lemma_newline_bounds(self.buf@, 0);
                    }
                    let n = self.buf.len();
                    let line = byte_slice(&self.buf, 0, p + 1);
                    let rest = byte_slice(&self.buf, p + 1, n);
                    assert(line@ =~= self.buf@.take(p + 1));
                    assert(rest@ =~= self.buf@.skip(p + 1));
                    let ghost before = strings_view(pieces@);
                    let ghost ps_rest = apply_bytes(apply_line(self.view(), line@).0, rest@).1;
                    let piece = self.apply_line_exec(&line);
                    self.buf = rest;
                    match piece {
                        Some(x) => {
                            pieces.push(x);
                            assert(strings_view(pieces@) =~= before.push(x@));
                            assert(before + with_piece(Some(x@), ps_rest) =~= before.push(x@) + ps_rest);
                        },
                        None => {},
                    }
                },
            }
        }
        pieces
    }

    /// The message the stream amounts to: its content (none when empty) and
    /// the tool calls whose name arrived, numbered `call_<i>` where the
    /// server sent no id.
    pub fn finish(self) -> (r: ChatMessage)
        ensures
            message_view(r) == final_message(self.view()),
    {
        let ghost fs = self.view().fragments;
        let mut calls: Vec<ToolCall> = Vec::new();
        let mut i: usize = 0;
        assert(fs.take(0) =~= Seq::<FragmentV>::empty());
        assert(calls_view(calls@) =~= final_calls(fs.take(0)));
        while i < self.fragments.len()
            invariant
                i <= self.fragments@.len(),
                fs == fragments_view(self.fragments@),
                calls_view(calls@) == final_calls(fs.take(i as int)),
                calls@.len() == named(fs.take(i as int)).len(),
            decreases self.fragments.len() - i,
        {
            let f = &self.fragments[i];
            let ghost t = fs.take(i + 1);
            assert(t.drop_last() =~= fs.take(i as int));
            assert(t.last() == fragment_view(*f));
            if f.name.len() > 0 {
                let k = calls.len();
                let id = if f.id.len() == 0 {
                    call_id_exec(k)
                } else {
                    string_of(&f.id)
                };
                let call = ToolCall {
                    id,
                    call_type: String::from_str("function"),
                    function: FunctionCall { name: string_of(&f.name), arguments: string_of(&f.arguments) },
                };
                let ghost before = calls_view(calls@);
                calls.push(call);
                assert(calls_view(calls@) =~= before.push(crate::engine::call_view(call)));
                assert(calls_view(calls@) =~= final_calls(t));
            } else {
                assert(final_calls(t) =~= final_calls(fs.take(i as int)));
            }
            i += 1;
        }
        assert(fs.take(i as int) =~= fs);
        let content = if self.content.len() == 0 {
            None
        } else {
            Some(string_of(&self.content))
        };
        let tool_calls = if calls.len() == 0 {
            None
        } else {
            Some(calls)
        };
        ChatMessage { role: Role::Assistant, content, tool_calls, tool_call_id: None, name: None }
    }
}

} // verus!
