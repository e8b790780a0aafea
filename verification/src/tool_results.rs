//! What the tools answer: the text each tool hands back to the model, made
//! from what the front end read from disk or a process.

use vstd::prelude::*;
use crate::json::{bool_field, get_bool, get_str, get_u64, str_field, u64_field, Json};
use crate::paths::{is_absolute, segments, segments_exec};
use crate::pattern::{regex_match, Pattern};
use crate::text::{strings_view, 
    chars_of, cut_to_bytes, decimal, decimal_exec, join, join_exec, lines, lines_exec, push_all,
    push_str, signed_decimal, signed_decimal_exec, slice_of, string_of, trim, trim_end,
    trim_end_exec, trim_exec, utf8_len, views,
};
use crate::tools::ToolOutput;

verus! {

// ---------------------------------------------------------------------------
// Paths as shown
// ---------------------------------------------------------------------------

/// `p` relative to the workspace when it lies below it
/// (`Path::strip_prefix`), else unchanged.
pub open spec fn rel_path(ws: Seq<char>, p: Seq<char>) -> Seq<char> {
    let w = segments(ws);
    let s = segments(p);
    if is_absolute(ws) == is_absolute(p) && w.len() <= s.len() && s.take(w.len() as int) == w {
        join(s.skip(w.len() as int), seq!['/'])
    } else {
        p
    }
}

/// A path as shown to the model: relative to the workspace where possible.
pub fn rel(ws: &str, p: &str) -> (r: String)
    ensures
        r@ == rel_path(ws@, p@),
{
    let wc = chars_of(ws);
    let pc = chars_of(p);
    let w = segments_exec(&wc);
    let s = segments_exec(&pc);
    let wa = wc.len() > 0 && wc[0] == '/';
    let pa = pc.len() > 0 && pc[0] == '/';
    assert(wa == is_absolute(ws@) && pa == is_absolute(p@));
    assert(views(w@).len() == w@.len() && views(s@).len() == s@.len());
    if wa != pa || w.len() > s.len() {
        return String::from_str(p);
    }
    let mut i: usize = 0;
    while i < w.len()
        invariant
            i <= w@.len() <= s@.len(),
            views(w@) == segments(ws@),
            views(s@) == segments(p@),
            forall|k: int| 0 <= k < i ==> views(s@)[k] == views(w@)[k],
        decreases w.len() - i,
    {
        if !crate::text::chars_eq(&s[i], &w[i]) {
            assert(views(s@).take(w@.len() as int)[i as int] != views(w@)[i as int]);
            assert(views(s@).take(w@.len() as int) != views(w@));
            return String::from_str(p);
        }
        i += 1;
    }
    assert(views(s@).take(w@.len() as int) =~= views(w@));
    let mut rest: Vec<Vec<char>> = Vec::new();
    let mut k = w.len();
    while k < s.len()
        invariant
            w@.len() <= k <= s@.len(),
            views(rest@) =~= views(s@).subrange(w@.len() as int, k as int),
        decreases s.len() - k,
    {
        let seg = slice_of(&s[k], 0, s[k].len());
        assert(seg@ =~= s@[k as int]@);
        let ghost before = views(rest@);
        rest.push(seg);
        assert(views(rest@) =~= before.push(seg@));
        assert(views(s@).subrange(w@.len() as int, k + 1) =~= views(s@).subrange(w@.len() as int, k as int).push(
            views(s@)[k as int],
        ));
        k += 1;
    }
    assert(views(s@).subrange(w@.len() as int, k as int) =~= views(s@).skip(w@.len() as int));
    let mut sep: Vec<char> = Vec::new();
    sep.push('/');
    assert(sep@ =~= seq!['/']);
    let j = join_exec(&rest, &sep);
    string_of(&j)
}

// ---------------------------------------------------------------------------
// read_file
// ---------------------------------------------------------------------------

/// Largest file `read_file` reads whole (bytes).
pub open spec fn max_read_bytes() -> nat {
    2097152
}

/// The answer for a file over the limit.
pub fn too_large(len: u64) -> (r: String)
    ensures
        r@ == "file is "@ + decimal(len as nat) + " bytes (> 2097152 limit); use grep or read a range"@,
{
    let mut t = chars_of("file is ");
    push_all(&mut t, &decimal_exec(len as u128));
    push_str(&mut t, " bytes (> 2097152 limit); use grep or read a range");
    string_of(&t)
}

/// `s` right-aligned in a field of `width` characters.
pub open spec fn pad_left(s: Seq<char>, width: nat) -> Seq<char> {
    if s.len() >= width {
        s
    } else {
        Seq::new((width - s.len()) as nat, |i: int| ' ') + s
    }
}

/// A numbered line as `read_file` shows it: the number right-aligned in six
/// columns, a tab, the line.
pub open spec fn numbered_line(n: nat, line: Seq<char>) -> Seq<char> {
    pad_left(decimal(n), 6) + "\t"@ + line + "\n"@
}

/// Whether line `n` (1-based) is in the window.
pub open spec fn in_window(n: nat, offset: nat, limit: Option<nat>) -> bool {
    n >= offset && match limit {
        Some(l) => n < offset + l,
        None => true,
    }
}

/// The numbered lines of the window, in order.
pub open spec fn window_text(ls: Seq<Seq<char>>, offset: nat, limit: Option<nat>) -> Seq<char>
    decreases ls.len(),
{
    if ls.len() == 0 {
        Seq::empty()
    } else {
        let n = ls.len() as nat;
        window_text(ls.drop_last(), offset, limit) + if in_window(n, offset, limit) {
            numbered_line(n, ls.last())
        } else {
            Seq::empty()
        }
    }
}

/// What `read_file` answers for a text: its lines numbered from 1, from
/// `offset` on and at most `limit` of them, or a note when none are left.
pub open spec fn read_text(text: Seq<char>, offset: nat, limit: Option<nat>) -> Seq<char> {
    let w = window_text(lines(text), offset, limit);
    if w.len() == 0 {
        "(empty or no lines in range)"@
    } else {
        w
    }
}

/// The window the arguments ask for: `offset` (1-based, at least 1,
/// default 1) and `limit` (default all).
pub fn read_window(args: &Json) -> (r: (usize, Option<usize>))
    ensures
        r.0 == (match u64_field(*args, "offset"@) {
            Some(o) => if o < 1 { 1usize } else { o as usize },
            None => 1usize,
        }),
        r.1 == (match u64_field(*args, "limit"@) {
            Some(l) => Some(l as usize),
            None => None::<usize>,
        }),
{
    let offset = match get_u64(args, "offset") {
        Some(o) => if o < 1 { 1 } else { o as usize },
        None => 1,
    };
    let limit = match get_u64(args, "limit") {
        Some(l) => Some(l as usize),
        None => None,
    };
    (offset, limit)
}

fn pad_left_exec(s: &Vec<char>, width: usize) -> (r: Vec<char>)
    ensures
        r@ == pad_left(s@, width as nat),
{
    if s.len() >= width {
        return slice_of(s, 0, s.len());
    }
    let mut r: Vec<char> = Vec::new();
    let n = width - s.len();
    let mut i: usize = 0;
    while i < n
        invariant
            i <= n,
            r@ =~= Seq::new(i as nat, |k: int| ' '),
        decreases n - i,
    {
        r.push(' ');
        i += 1;
    }
    push_all(&mut r, s);
    r
}

/// `read_file`'s answer for a text and a window. (The window's end,
/// `offset + limit`, is computed for each line from `offset` on, so it must
/// fit in a `usize` when there is such a line.)
pub fn numbered_lines(text: &str, offset: usize, limit: Option<usize>) -> (r: String)
    requires
        limit matches Some(l) && offset + l > usize::MAX ==> lines(text@).len() < offset,
    ensures
        r@ == read_text(
            text@,
            offset as nat,
            match limit {
                Some(l) => Some(l as nat),
                None => None,
            },
        ),
{
    let tc = chars_of(text);
    let ls = lines_exec(&tc);
    let ghost lim = match limit {
        Some(l) => Some(l as nat),
        None => None::<nat>,
    };
    let ghost lv = views(ls@);
    let mut out: Vec<char> = Vec::new();
    let mut i: usize = 0;
    assert(lv.take(0) =~= Seq::<Seq<char>>::empty());
    while i < ls.len()
        invariant
            i <= ls@.len(),
            lv == views(ls@),
            lv == lines(text@),
            lim == (match limit {
                Some(l) => Some(l as nat),
                None => None::<nat>,
            }),
            out@ == window_text(lv.take(i as int), offset as nat, lim),
        decreases ls.len() - i,
    {
        let n = i + 1;
        let ghost t = lv.take(n as int);
        assert(t.drop_last() =~= lv.take(i as int));
        assert(t.last() == ls@[i as int]@);
        let inside = n >= offset && match limit {
            Some(l) => n - offset < l,
            None => true,
        };
        if inside {
            let num = decimal_exec(n as u128);
            let padded = pad_left_exec(&num, 6);
            push_all(&mut out, &padded);
            push_str(&mut out, "\t");
            push_all(&mut out, &ls[i]);
            push_str(&mut out, "\n");
        }
        i += 1;
    }
    assert(lv.take(i as int) =~= lv);
    if out.len() == 0 {
        String::from_str("(empty or no lines in range)")
    } else {
        string_of(&out)
    }
}

// ---------------------------------------------------------------------------
// write_file, edit_file
// ---------------------------------------------------------------------------

/// `write_file`'s answer.
pub fn wrote(rel: &str, bytes: usize) -> (r: String)
    ensures
        r@ == "wrote "@ + rel@ + " ("@ + decimal(bytes as nat) + " bytes)"@,
{
    let mut t = chars_of("wrote ");
    push_str(&mut t, rel);
    push_str(&mut t, " (");
    push_all(&mut t, &decimal_exec(bytes as u128));
    push_str(&mut t, " bytes)");
    string_of(&t)
}

/// `edit_file`'s answer.
pub fn edited(rel: &str, n: usize) -> (r: String)
    ensures
        r@ == "edited "@ + rel@ + " ("@ + decimal(n as nat) + " replacement"@ + (if n == 1 {
            Seq::empty()
        } else {
            "s"@
        }) + ")"@,
{
    let mut t = chars_of("edited ");
    push_str(&mut t, rel);
    push_str(&mut t, " (");
    push_all(&mut t, &decimal_exec(n as u128));
    push_str(&mut t, " replacement");
    if n != 1 {
        push_str(&mut t, "s");
    }
    push_str(&mut t, ")");
    string_of(&t)
}

// ---------------------------------------------------------------------------
// Sorted listings (list_dir, glob)
// ---------------------------------------------------------------------------

/// Lexicographic order of texts by character (the order of `String`).
pub open spec fn text_le(a: Seq<char>, b: Seq<char>) -> bool
    decreases a.len(),
{
    if a.len() == 0 {
        true
    } else if b.len() == 0 {
        false
    } else if a[0] != b[0] {
        (a[0] as u32) < (b[0] as u32)
    } else {
        text_le(a.drop_first(), b.drop_first())
    }
}

pub open spec fn sorted_texts(s: Seq<Seq<char>>) -> bool {
    forall|i: int, j: int| 0 <= i < j < s.len() ==> text_le(#[trigger] s[i], #[trigger] s[j])
}

/// Sort strings with `slice::sort` (by `String`'s order).
#[verifier::external_body]
fn sort_strings(v: &mut Vec<String>)
    ensures
        strings_view(final(v)@).to_multiset() == strings_view(old(v)@).to_multiset(),
        sorted_texts(strings_view(final(v)@)),
{
    v.sort();
}

/// A listing: the entries in order, one per line, or `empty` when there
/// are none.
pub open spec fn listing(entries: Seq<Seq<char>>, empty: Seq<char>) -> Seq<char> {
    if entries.len() == 0 {
        empty
    } else {
        join(entries, "\n"@)
    }
}

fn joined_lines(v: &Vec<String>) -> (r: String)
    ensures
        r@ == join(strings_view(v@), "\n"@),
{
    let mut parts: Vec<Vec<char>> = Vec::new();
    let mut i: usize = 0;
    while i < v.len()
        invariant
            i <= v@.len(),
            views(parts@) =~= strings_view(v@).take(i as int),
        decreases v.len() - i,
    {
        let c = chars_of(v[i].as_str());
        let ghost before = views(parts@);
        parts.push(c);
        assert(views(parts@) =~= before.push(c@));
        assert(strings_view(v@).take(i + 1) =~= strings_view(v@).take(i as int).push(v@[i as int]@));
        i += 1;
    }
    assert(strings_view(v@).take(i as int) =~= strings_view(v@));
    let nl = chars_of("\n");
    let j = join_exec(&parts, &nl);
    string_of(&j)
}

/// `list_dir`'s answer for a directory's entries (name, is-directory):
/// directories get a `/`, the names are sorted, one per line.
pub fn dir_listing(entries: &Vec<(String, bool)>) -> (r: String)
    ensures
        entries@.len() == 0 ==> r@ == "(empty directory)"@,
        entries@.len() > 0 ==> exists|names: Seq<Seq<char>>| {
            &&& sorted_texts(names)
            &&& names.to_multiset() == Seq::new(entries@.len(), |i: int| if entries@[i].1 {
                entries@[i].0@ + "/"@
            } else {
                entries@[i].0@
            }).to_multiset()
            &&& r@ == join(names, "\n"@)
        },
{
    let ghost want = Seq::new(entries@.len(), |i: int| if entries@[i].1 {
        entries@[i].0@ + "/"@
    } else {
        entries@[i].0@
    });
    let mut names: Vec<String> = Vec::new();
    let mut i: usize = 0;
    while i < entries.len()
        invariant
            i <= entries@.len(),
            want == Seq::new(entries@.len(), |i: int| if entries@[i].1 {
                entries@[i].0@ + "/"@
            } else {
                entries@[i].0@
            }),
            strings_view(names@) =~= want.take(i as int),
        decreases entries.len() - i,
    {
        let mut c = chars_of(entries[i].0.as_str());
        if entries[i].1 {
            push_str(&mut c, "/");
        }
        let s = string_of(&c);
        let ghost before = strings_view(names@);
        names.push(s);
        assert(strings_view(names@) =~= before.push(s@));
        assert(want.take(i + 1) =~= want.take(i as int).push(want[i as int]));
        i += 1;
    }
    assert(want.take(i as int) =~= want);
    if names.len() == 0 {
        return String::from_str("(empty directory)");
    }
    sort_strings(&mut names);
    joined_lines(&names)
}

/// Most matches `glob` lists.
pub open spec fn glob_cap() -> nat {
    500
}

/// The matches of a `glob` run, gathered as the walk yields them.
pub struct GlobMatches {
    items: Vec<String>,
}

impl GlobMatches {
    pub closed spec fn items(&self) -> Seq<Seq<char>> {
        strings_view(self.items@)
    }

    pub fn new() -> (r: GlobMatches)
        ensures
            r.items() == Seq::<Seq<char>>::empty(),
    {
        let r = GlobMatches { items: Vec::new() };
        assert(r.items() =~= Seq::<Seq<char>>::empty());
        r
    }

    /// Take the next entry of the walk (the path shown for a match, or
    /// nothing for an unreadable entry). Returns whether to go on: at the
    /// cap, a truncation marker is added and the walk stops.
    pub fn add(&mut self, entry: Option<String>) -> (r: bool)
        requires
            old(self).items().len() < glob_cap(),
        ensures
            ({
                let added = match entry {
                    Some(p) => old(self).items().push(p@),
                    None => old(self).items(),
                };
                if added.len() >= glob_cap() {
                    &&& final(self).items() == added.push("[truncated at 500]"@)
                    &&& !r
                } else {
                    &&& final(self).items() == added
                    &&& r
                }
            }),
    {
        match entry {
            Some(p) => {
                let ghost before = self.items();
                self.items.push(p);
                assert(self.items() =~= before.push(p@));
            },
            None => {},
        }
        if self.items.len() >= 500 {
            let ghost before = self.items();
            self.items.push(String::from_str("[truncated at 500]"));
            assert(self.items() =~= before.push("[truncated at 500]"@));
            false
        } else {
            true
        }
    }

    /// `glob`'s answer: the gathered paths sorted, one per line, or a note
    /// when nothing matched.
    pub fn finish(self) -> (r: String)
        ensures
            self.items().len() == 0 ==> r@ == "(no matches)"@,
            self.items().len() > 0 ==> exists|names: Seq<Seq<char>>| {
                &&& sorted_texts(names)
                &&& names.to_multiset() == self.items().to_multiset()
                &&& r@ == join(names, "\n"@)
            },
    {
        let mut items = self.items;
        if items.len() == 0 {
            return String::from_str("(no matches)");
        }
        sort_strings(&mut items);
        joined_lines(&items)
    }
}

// ---------------------------------------------------------------------------
// grep
// ---------------------------------------------------------------------------

/// Most matches `grep` reports.
pub open spec fn grep_cap() -> nat {
    200
}

/// Bytes of a matching line shown.
pub open spec fn grep_width() -> nat {
    200
}

/// The report line for a match: the path, the line number, and the line
/// (trailing whitespace dropped) cut to 200 bytes.
pub open spec fn grep_line(rel: Seq<char>, n: nat, line: Seq<char>) -> Seq<char> {
    let t = trim_end(line);
    let shown = if utf8_len(t) > grep_width() { cut_to_bytes(t, grep_width()) } else { t };
    rel + ":"@ + decimal(n) + ":"@ + shown + "\n"@
}

/// A `grep` run in progress.
pub struct GrepReport {
    out: Vec<char>,
    count: usize,
}

/// What scanning a file came to.
#[derive(Debug, PartialEq, Eq, Structural)]
pub enum GrepScan {
    /// Go on with the next file.
    Continue,
    /// The match cap was reached: the report is complete.
    Full,
    /// A matching line's first 200 bytes end inside a character (slicing
    /// there is what the tool refuses to do).
    CutInsideChar,
}

/// Whether cutting `t` at `max` bytes lands on a character boundary.
pub open spec fn cut_exact(t: Seq<char>, max: nat) -> bool {
    utf8_len(cut_to_bytes(t, max)) == max
}

/// Whether a matching line's shown part would end inside a character.
pub open spec fn cut_inside(line: Seq<char>) -> bool {
    let t = trim_end(line);
    utf8_len(t) > grep_width() && !cut_exact(t, grep_width())
}

/// The report after the matching lines of a file, from line `i` on: the
/// text, the count, and how the scan ended (0: went through, 1: the cap was
/// reached, 2: a line's cut fell inside a character).
pub open spec fn scan_lines(out: Seq<char>, count: nat, pattern: Seq<char>, rel: Seq<char>, ls: Seq<Seq<char>>, i: int) -> (Seq<char>, nat, int)
    decreases ls.len() - i,
{
    if i < 0 || i >= ls.len() {
        (out, count, 0)
    } else if regex_match(pattern, ls[i]) {
        if cut_inside(ls[i]) {
            (out, count, 2)
        } else {
            let out1 = out + grep_line(rel, (i + 1) as nat, ls[i]);
            if count + 1 >= grep_cap() {
                (out1 + "[truncated at 200 matches]\n"@, count + 1, 1)
            } else {
                scan_lines(out1, count + 1, pattern, rel, ls, i + 1)
            }
        }
    } else {
        scan_lines(out, count, pattern, rel, ls, i + 1)
    }
}

impl GrepReport {
    pub closed spec fn text(&self) -> Seq<char> {
        self.out@
    }

    pub closed spec fn matches(&self) -> nat {
        self.count as nat
    }

    pub fn new() -> (r: GrepReport)
        ensures
            r.text() == Seq::<char>::empty(),
            r.matches() == 0,
    {
        GrepReport { out: Vec::new(), count: 0 }
    }

    /// Add the matching lines of a file (its path as shown, and its text).
    pub fn scan(&mut self, pattern: &Pattern, rel: &str, content: &str) -> (r: GrepScan)
        requires
            old(self).matches() < grep_cap(),
        ensures
            ({
                let (out, count, end) = scan_lines(
                    old(self).text(),
                    old(self).matches(),
                    pattern.source(),
                    rel@,
                    lines(content@),
                    0,
                );
                &&& (r == GrepScan::Continue) == (end == 0)
                &&& (r == GrepScan::Full) == (end == 1)
                &&& (r == GrepScan::CutInsideChar) == (end == 2)
                &&& r != GrepScan::CutInsideChar ==> final(self).text() == out && final(self).matches() == count
            }),
            final(self).matches() < grep_cap() || r != GrepScan::Continue,
    {
        let cc = chars_of(content);
        let ls = lines_exec(&cc);
        let ghost lv = views(ls@);
        let ghost target = scan_lines(self.text(), self.matches(), pattern.source(), rel@, lv, 0);
        let mut i: usize = 0;
        while i < ls.len()
            invariant
                i <= ls@.len(),
                lv == views(ls@),
                lv == lines(content@),
                target == scan_lines(old(self).text(), old(self).matches(), pattern.source(), rel@, lv, 0),
                self.matches() < grep_cap(),
                scan_lines(self.text(), self.matches(), pattern.source(), rel@, lv, i as int) == target,
            decreases ls.len() - i,
        {
            let line = string_of(&ls[i]);
            assert(line@ == lv[i as int]);
            let ghost text0 = self.text();
            let ghost count0 = self.matches();
            if pattern.is_match(line.as_str()) {
                let t = trim_end_exec(&ls[i]);
                let shown = if crate::text::utf8_len_upto(&t, 200) > 200 {
                    let cut = crate::text::truncate_bytes(&t, 200, "");
                    proof {
                        reveal_strlit("");
                    }
                    assert(cut@ =~= cut_to_bytes(t@, 200));
                    if crate::text::utf8_len_upto(&cut, 200) != 200 {
                        assert(cut_inside(lv[i as int]));
                        return GrepScan::CutInsideChar;
                    }
                    cut
                } else {
                    t
                };
                push_str(&mut self.out, rel);
                push_str(&mut self.out, ":");
                push_all(&mut self.out, &decimal_exec((i + 1) as u128));
                push_str(&mut self.out, ":");
                push_all(&mut self.out, &shown);
                push_str(&mut self.out, "\n");
                assert(!cut_inside(lv[i as int]));
                assert(shown@ == (if utf8_len(trim_end(lv[i as int])) > grep_width() {
                    cut_to_bytes(trim_end(lv[i as int]), grep_width())
                } else {
                    trim_end(lv[i as int])
                }));
                assert(self.text() =~= text0 + grep_line(rel@, (i + 1) as nat, lv[i as int]));
                self.count = self.count + 1;
                if self.count >= 200 {
                    let ghost t1 = self.text();
                    push_str(&mut self.out, "[truncated at 200 matches]\n");
                    assert(self.text() =~= t1 + "[truncated at 200 matches]\n"@);
                    return GrepScan::Full;
                }
            }
            i += 1;
        }
        GrepScan::Continue
    }

    /// `grep`'s answer: the report, or a note when nothing matched.
    pub fn finish(self) -> (r: String)
        ensures
            r@ == (if self.text().len() == 0 { "(no matches)"@ } else { self.text() }),
    {
        if self.out.len() == 0 {
            String::from_str("(no matches)")
        } else {
            string_of(&self.out)
        }
    }
}


// ---------------------------------------------------------------------------
// bash
// ---------------------------------------------------------------------------

/// Bytes of command output kept (the last ones).
pub open spec fn bash_cap() -> nat {
    16000
}

/// Characters of `s` before its last `n` bytes, when that cut falls on a
/// character boundary.
pub open spec fn tail_start(s: Seq<char>, n: nat) -> nat {
    crate::text::prefix_within(s, (utf8_len(s) - n) as nat, 0)
}

/// Whether the last `n` bytes of `s` start on a character boundary.
pub open spec fn tail_exact(s: Seq<char>, n: nat) -> bool {
    utf8_len(s.take(tail_start(s, n) as int)) == utf8_len(s) - n
}

/// The output as kept: whole, or its last 16000 bytes under a note.
pub open spec fn kept_output(s: Seq<char>) -> Seq<char> {
    if utf8_len(s) > bash_cap() {
        "[output truncated to last 16000 bytes]\n"@ + s.skip(tail_start(s, bash_cap()) as int)
    } else {
        s
    }
}

proof fn lemma_prefix_within_bounds(s: Seq<char>, max: nat, j: nat)
    requires
        j <= s.len(),
    ensures
        j <= crate::text::prefix_within(s, max, j) <= s.len(),
    decreases s.len() - j,
{
    if j < s.len() && utf8_len(s.take(j + 1 as int)) <= max {
        lemma_prefix_within_bounds(s, max, j + 1);
    }
}

/// The combined output of a command: stdout, then stderr on a line of its
/// own.
pub open spec fn combined(out: Seq<char>, err: Seq<char>) -> Seq<char> {
    if err.len() == 0 {
        out
    } else if out.len() > 0 && out.last() != '\n' {
        out + "\n"@ + err
    } else {
        out + err
    }
}

/// Stdout and stderr of a command as one text.
pub fn combine_output(out: &str, err: &str) -> (r: String)
    ensures
        r@ == combined(out@, err@),
{
    let mut c = chars_of(out);
    let e = chars_of(err);
    if e.len() > 0 {
        if c.len() > 0 && c[c.len() - 1] != '\n' {
            c.push('\n');
        }
        push_all(&mut c, &e);
    }
    proof {
        if e@.len() > 0 && out@.len() > 0 && out@.last() != '\n' {
            assert(out@ + "\n"@ == out@.push('\n')) by {
                reveal_strlit("\n");
                assert(out@ + "\n"@ =~= out@.push('\n'));
            }
        }
    }
    string_of(&c)
}

/// The exit code reported: the process's, else 124 after a timeout, else -1
/// (killed by a signal).
pub fn exit_code(code: Option<i32>, timed_out: bool) -> (r: i32)
    ensures
        r == (match code {
            Some(c) => c,
            None => if timed_out { 124i32 } else { -1i32 },
        }),
{
    match code {
        Some(c) => c,
        None => if timed_out { 124 } else { -1 },
    }
}

/// What `bash` answers: after a timeout an error naming the timeout,
/// otherwise the exit code above the output (an error when non-zero); the
/// output cut to its last 16000 bytes. Nothing when that cut would fall
/// inside a character (where slicing refuses).
pub fn bash_result(code: i32, output: &str, timed_out: bool, timeout: &str) -> (r: Option<ToolOutput>)
    requires
        utf8_len(output@) < usize::MAX - 4,
    ensures
        (utf8_len(output@) > bash_cap() && !tail_exact(output@, bash_cap())) <==> r is None,
        r matches Some(o) ==> if timed_out {
            &&& o.is_error
            &&& o.content@ == "command timed out after "@ + timeout@ + " and was killed.\n"@ + kept_output(output@)
        } else {
            &&& o.is_error == (code != 0)
            &&& o.content@ == "[exit "@ + signed_decimal(code as int) + "]\n"@ + kept_output(output@)
        },
{
    let oc = chars_of(output);
    let total = crate::text::utf8_len_exec(&oc);
    let kept = if total > 16000 {
        let head = crate::text::truncate_bytes(&oc, total - 16000, "");
        proof {
            reveal_strlit("");
        }
        proof {
            lemma_prefix_within_bounds(output@, (utf8_len(output@) - bash_cap()) as nat, 0);
        }
        assert(head@ =~= output@.take(tail_start(output@, bash_cap()) as int));
        let hl = crate::text::utf8_len_upto(&head, total - 16000);
        if hl != total - 16000 {
            return None;
        }
        let tail = slice_of(&oc, head.len(), oc.len());
        assert(tail@ =~= output@.skip(tail_start(output@, bash_cap()) as int));
        let mut k = chars_of("[output truncated to last 16000 bytes]\n");
        push_all(&mut k, &tail);
        k
    } else {
        oc
    };
    if timed_out {
        let mut t = chars_of("command timed out after ");
        push_str(&mut t, timeout);
        push_str(&mut t, " and was killed.\n");
        push_all(&mut t, &kept);
        return Some(ToolOutput::err(string_of(&t)));
    }
    let mut t = chars_of("[exit ");
    push_all(&mut t, &signed_decimal_exec(code as i64));
    push_str(&mut t, "]\n");
    push_all(&mut t, &kept);
    Some(ToolOutput { content: string_of(&t), is_error: code != 0 })
}

// ---------------------------------------------------------------------------
// todo_write
// ---------------------------------------------------------------------------

/// The checkbox for a status.
pub open spec fn todo_mark(status: Seq<char>) -> Seq<char> {
    if status == "completed"@ {
        "[x]"@
    } else if status == "in_progress"@ {
        "[~]"@
    } else {
        "[ ]"@
    }
}

/// One task as a line.
pub open spec fn todo_line(t: Json) -> Seq<char> {
    let content = match str_field(t, "content"@) {
        Some(c) => c,
        None => Seq::empty(),
    };
    let status = match str_field(t, "status"@) {
        Some(s) => s,
        None => "pending"@,
    };
    todo_mark(status) + " "@ + content + "\n"@
}

pub open spec fn todo_lines(items: Seq<Json>) -> Seq<char>
    decreases items.len(),
{
    if items.len() == 0 {
        Seq::empty()
    } else {
        todo_lines(items.drop_last()) + todo_line(items.last())
    }
}

/// `todo_write`'s answer: the tasks as a checklist, or an error when the
/// `todos` array is missing.
pub fn todo_text(args: &Json) -> (r: Result<String, String>)
    ensures
        match crate::json::field(*args, "todos"@) {
            Some(Json::Array(items)) => r matches Ok(t) && t@ == todo_lines(items@),
            _ => r matches Err(e) && e@ == "missing 'todos' array"@,
        },
{
    let items = match args.get("todos") {
        Some(Json::Array(a)) => a,
        _ => return Err(String::from_str("missing 'todos' array")),
    };
    let mut out: Vec<char> = Vec::new();
    let mut i: usize = 0;
    assert(items@.take(0) =~= Seq::<Json>::empty());
    while i < items.len()
        invariant
            i <= items@.len(),
            out@ == todo_lines(items@.take(i as int)),
        decreases items.len() - i,
    {
        let t = &items[i];
        let content = match get_str(t, "content") {
            Some(c) => c,
            None => "",
        };
        let status = match get_str(t, "status") {
            Some(s) => s,
            None => "pending",
        };
        let sc = chars_of(status);
        let mark = if crate::text::chars_eq(&sc, &chars_of("completed")) {
            "[x]"
        } else if crate::text::chars_eq(&sc, &chars_of("in_progress")) {
            "[~]"
        } else {
            "[ ]"
        };
        proof {
            reveal_strlit("");
        }
        push_str(&mut out, mark);
        push_str(&mut out, " ");
        push_str(&mut out, content);
        push_str(&mut out, "\n");
        assert(items@.take(i + 1).drop_last() =~= items@.take(i as int));
        assert(items@.take(i + 1).last() == *t);
        i += 1;
    }
    assert(items@.take(i as int) =~= items@);
    Ok(string_of(&out))
}


// ---------------------------------------------------------------------------
// Approval previews
// ---------------------------------------------------------------------------

/// The text an edit leaves, when it applies: `old` non-empty and found,
/// and found once unless every occurrence is to be replaced.
pub open spec fn edit_outcome(file: Seq<char>, old: Seq<char>, new: Seq<char>, replace_all: bool) -> Option<Seq<char>> {
    let n = crate::text::count_matches(file, old);
    if old.len() == 0 || n == 0 || (n > 1 && !replace_all) {
        None
    } else if replace_all {
        Some(crate::text::replace_all(file, old, new))
    } else {
        Some(crate::text::replace_first(file, old, new))
    }
}

/// The preview of a `write_file` call on a file shown as `shown`, whose
/// text is now `current` (empty when it does not exist): the diff to the new
/// content; nothing without a content.
pub fn write_preview(shown: &str, current: &str, args: &Json) -> (r: Option<String>)
    ensures
        match str_field(*args, "content"@) {
            Some(c) => r matches Some(p) && p@ == crate::diff::rendered(shown@, current@, c),
            None => r is None,
        },
{
    match get_str(args, "content") {
        Some(c) => Some(crate::diff::render(shown, current, c)),
        None => None,
    }
}

/// The preview of an `edit_file` call on a file shown as `shown` whose
/// text is `current`: the diff the edit would make (`new_string` missing
/// counts as empty, `replace_all` as false); nothing without an
/// `old_string`, or when the edit would be refused.
pub fn edit_preview(shown: &str, current: &str, args: &Json) -> (r: Option<String>)
    ensures
        match str_field(*args, "old_string"@) {
            None => r is None,
            Some(o) => {
                let n = match str_field(*args, "new_string"@) {
                    Some(x) => x,
                    None => Seq::<char>::empty(),
                };
                let all = match bool_field(*args, "replace_all"@) {
                    Some(b) => b,
                    None => false,
                };
                match edit_outcome(current@, o, n, all) {
                    Some(t) => r matches Some(p) && p@ == crate::diff::rendered(shown@, current@, t),
                    None => r is None,
                }
            },
        },
{
    let old = match get_str(args, "old_string") {
        Some(o) => o,
        None => return None,
    };
    let new = match get_str(args, "new_string") {
        Some(x) => x,
        None => "",
    };
    proof {
        reveal_strlit("");
        assert(new@ == match str_field(*args, "new_string"@) {
            Some(x) => x,
            None => Seq::<char>::empty(),
        });
    }
    let all = match get_bool(args, "replace_all") {
        Some(b) => b,
        None => false,
    };
    match crate::edit::apply_edit(current, old, new, all) {
        Ok((text, _)) => Some(crate::diff::render(shown, current, text.as_str())),
        Err(_) => None,
    }
}

/// The preview of a `bash` call: the command after a `$`.
pub fn bash_preview(args: &Json) -> (r: Option<String>)
    ensures
        match str_field(*args, "command"@) {
            Some(c) => r matches Some(p) && p@ == "$ "@ + c,
            None => r is None,
        },
{
    match get_str(args, "command") {
        Some(c) => {
            let mut t = chars_of("$ ");
            push_str(&mut t, c);
            Some(string_of(&t))
        },
        None => None,
    }
}

} // verus!
