//! The inline terminal view's decisions: layout arithmetic, what goes into
//! the scrollback, and what a key press does.

use vstd::prelude::*;
use crate::text::{
    chars_of, join, join_exec, lines, lines_exec, push_all, push_str, slice_of, string_of, trim, trim_exec, views,
};

verus! {

/// The pieces of `s` between `\n` characters (`str::split('\n')`): one more
/// than there are newlines.
pub open spec fn split_newlines(s: Seq<char>) -> Seq<Seq<char>>
    decreases s.len(),
{
    match crate::text::first_newline(s) {
        Some(k) => if 0 <= k < s.len() {
            seq![s.take(k)] + split_newlines(s.skip(k + 1))
        } else {
            seq![s]
        },
        None => seq![s],
    }
}

/// Rows a line of `cols` characters takes at width `w` (a blank line takes
/// one), as the 16-bit count the view keeps.
pub open spec fn line_rows(cols: nat, w: nat) -> u16 {
    if cols == 0 {
        1
    } else {
        ((cols + w - 1) / (w as int)) as u16
    }
}

/// Rows of the pieces from the front.
pub open spec fn rows_sum(pieces: Seq<Seq<char>>, w: nat) -> int
    decreases pieces.len(),
{
    if pieces.len() == 0 {
        0
    } else {
        rows_sum(pieces.drop_last(), w) + line_rows(pieces.last().len(), w) as int
    }
}

pub open spec fn effective_width(width: u16) -> nat {
    if width == 0 { 1 } else { width as nat }
}

/// Rows `text` occupies at a width (at least one).
pub open spec fn rows_of(text: Seq<char>, width: u16) -> int {
    let total = rows_sum(split_newlines(text), effective_width(width));
    if total < 1 { 1 } else { total }
}

proof fn lemma_rows_prefix(pieces: Seq<Seq<char>>, w: nat, i: int)
    requires
        0 <= i <= pieces.len(),
    ensures
        0 <= rows_sum(pieces.take(i), w) <= rows_sum(pieces, w),
    decreases pieces.len() - i,
{
    if i < pieces.len() {
        lemma_rows_prefix(pieces, w, i + 1);
        assert(pieces.take(i + 1).drop_last() =~= pieces.take(i));
    } else {
        assert(pieces.take(i) =~= pieces);
    }
    lemma_rows_nonneg(pieces.take(i), w);
}

proof fn lemma_rows_nonneg(pieces: Seq<Seq<char>>, w: nat)
    ensures
        rows_sum(pieces, w) >= 0,
    decreases pieces.len(),
{
    if pieces.len() > 0 {
        lemma_rows_nonneg(pieces.drop_last(), w);
    }
}

fn split_newlines_exec(s: &Vec<char>) -> (r: Vec<Vec<char>>)
    ensures
        crate::text::views(r@) == split_newlines(s@),
{
    let mut r: Vec<Vec<char>> = Vec::new();
    let mut start: usize = 0;
    let mut i: usize = 0;
    assert(s@.skip(0) =~= s@);
    assert(crate::text::views(r@) + split_newlines(s@) =~= split_newlines(s@));
    while i < s.len()
        invariant
            start <= i <= s@.len(),
            forall|j: int| start <= j < i ==> s@[j] != '\n',
            split_newlines(s@) == crate::text::views(r@) + split_newlines(s@.skip(start as int)),
        decreases s.len() - i,
    {
        if s[i] == '\n' {
            let piece = crate::text::slice_of(s, start, i);
            proof {
                let rest = s@.skip(start as int);
                lemma_first_newline_at(rest, (i - start) as int);
                assert(rest.take((i - start) as int) =~= piece@);
                assert(rest.skip((i - start) + 1) =~= s@.skip(i + 1));
            }
            let ghost before = crate::text::views(r@);
            r.push(piece);
            assert(crate::text::views(r@) =~= before.push(piece@));
            assert(before + (seq![piece@] + split_newlines(s@.skip(i + 1))) =~= before.push(piece@) + split_newlines(s@.skip(i + 1)));
            start = i + 1;
        }
        i += 1;
    }
    let last = crate::text::slice_of(s, start, s.len());
    proof {
        let rest = s@.skip(start as int);
        lemma_no_newline(rest);
        assert(last@ =~= rest);
    }
    let ghost before = crate::text::views(r@);
    r.push(last);
    assert(crate::text::views(r@) =~= before.push(last@));
    assert(before + seq![last@] =~= before.push(last@));
    r
}

proof fn lemma_first_newline_at(s: Seq<char>, k: int)
    requires
        0 <= k < s.len(),
        s[k] == '\n',
        forall|j: int| 0 <= j < k ==> s[j] != '\n',
    ensures
        crate::text::first_newline(s) == Some(k),
{
    crate::text::lemma_first_newline_is(s, k);
}

proof fn lemma_no_newline(s: Seq<char>)
    requires
        forall|j: int| 0 <= j < s.len() ==> s[j] != '\n',
    ensures
        crate::text::first_newline(s) is None,
{
    crate::text::lemma_first_newline_none(s);
}

/// Number of terminal rows `text` occupies when wrapped at `width` columns
/// (a zero width counts as one column).
pub fn wrapped_rows(text: &str, width: u16) -> (r: u16)
    requires
        rows_sum(split_newlines(text@), effective_width(width)) <= u16::MAX,
    ensures
        r as int == rows_of(text@, width),
{
    let w: usize = if width == 0 { 1 } else { width as usize };
    let tc = chars_of(text);
    let pieces = split_newlines_exec(&tc);
    let ghost pv = crate::text::views(pieces@);
    let mut total: u16 = 0;
    let mut i: usize = 0;
    proof {
        assert(pv.take(0) =~= Seq::<Seq<char>>::empty());
    }
    while i < pieces.len()
        invariant
            i <= pieces@.len(),
            w == effective_width(width),
            w >= 1,
            pv == crate::text::views(pieces@),
            pv == split_newlines(text@),
            rows_sum(pv, w as nat) <= u16::MAX,
            total as int == rows_sum(pv.take(i as int), w as nat),
        decreases pieces.len() - i,
    {
        proof {
            lemma_rows_prefix(pv, w as nat, i + 1);
            assert(pv.take(i + 1).drop_last() =~= pv.take(i as int));
            assert(pv.take(i + 1).last() == pieces@[i as int]@);
        }
        let cols = pieces[i].len();
        let rows: u16 = if cols == 0 {
            1
        } else {
            let q = (cols - 1) / w + 1;
            assert(q == (cols + w - 1) / (w as int)) by (nonlinear_arith)
                requires
                    cols >= 1,
                    w >= 1,
                    q == (cols - 1) / (w as int) + 1,
            ;
            q as u16
        };
        total = total + rows;
        i += 1;
    }
    assert(pv.take(i as int) =~= pv);
    if total < 1 {
        1
    } else {
        total
    }
}

/// The last `max` characters of `s`.
pub open spec fn last_chars(s: Seq<char>, max: nat) -> Seq<char> {
    if s.len() <= max {
        s
    } else {
        s.skip(s.len() - max)
    }
}

/// Last `max` characters of `s` (on a char boundary).
pub fn tail_chars(s: &str, max: usize) -> (r: String)
    ensures
        r@ == last_chars(s@, max as nat),
{
    let c = chars_of(s);
    if c.len() <= max {
        return String::from_str(s);
    }
    let t = crate::text::slice_of(&c, c.len() - max, c.len());
    assert(t@ =~= s@.skip(s@.len() - max));
    crate::text::string_of(&t)
}


// ---------------------------------------------------------------------------
// Scrollback blocks
// ---------------------------------------------------------------------------

/// Lines of tool output the view shows.
pub open spec fn tui_shown_lines() -> nat {
    20
}

/// The lines of a tool's output as the view shows them: the first 20, and
/// a marker when there were more.
pub open spec fn result_lines_shown(output: Seq<char>) -> Seq<Seq<char>> {
    let ls = lines(output);
    if ls.len() > tui_shown_lines() {
        ls.take(tui_shown_lines() as int).push("… (output truncated)"@)
    } else {
        ls
    }
}

/// The block a tool result adds to the scrollback.
pub fn result_block(output: &str) -> (r: String)
    ensures
        r@ == join(result_lines_shown(output@), "\n"@),
{
    let oc = chars_of(output);
    let ls = lines_exec(&oc);
    let mut shown: Vec<Vec<char>> = Vec::new();
    let n: usize = if ls.len() > 20 { 20 } else { ls.len() };
    let mut i: usize = 0;
    while i < n
        invariant
            i <= n,
            n <= ls@.len(),
            views(ls@) == lines(output@),
            views(shown@) =~= views(ls@).take(i as int),
        decreases n - i,
    {
        let ghost before = views(shown@);
        shown.push(slice_of(&ls[i], 0, ls[i].len()));
        assert(ls@[i as int]@.subrange(0, ls@[i as int]@.len() as int) =~= ls@[i as int]@);
        assert(views(shown@) =~= before.push(views(ls@)[i as int]));
        assert(views(ls@).take(i + 1) =~= views(ls@).take(i as int).push(views(ls@)[i as int]));
        i += 1;
    }
    if ls.len() > 20 {
        let ghost before = views(shown@);
        shown.push(chars_of("… (output truncated)"));
        assert(views(shown@) =~= before.push("… (output truncated)"@));
    } else {
        assert(views(ls@).take(n as int) =~= views(ls@));
    }
    let nl = chars_of("\n");
    string_of(&join_exec(&shown, &nl))
}

/// The block a finished streamed reply adds to the scrollback: the reply
/// trimmed, after a marker; nothing for a blank reply.
pub fn streamed_block(text: &str) -> (r: Option<String>)
    ensures
        trim(text@).len() == 0 ==> r is None,
        trim(text@).len() > 0 ==> (r matches Some(b) && b@ == "⏺ "@ + trim(text@)),
{
    let t = trim_exec(&chars_of(text));
    if t.len() == 0 {
        None
    } else {
        let mut b = chars_of("⏺ ");
        push_all(&mut b, &t);
        Some(string_of(&b))
    }
}

// ---------------------------------------------------------------------------
// Keys
// ---------------------------------------------------------------------------

/// The keys the view reacts to.
#[derive(Debug, Clone, Copy, PartialEq, Eq, Structural)]
pub enum Key {
    Enter,
    Char(char),
    Backspace,
    Esc,
    Other,
}

/// The answer a key gives to an approval prompt: yes on `y` or Enter, no on
/// `n`, Esc or Ctrl-C; nothing for any other key.
pub open spec fn confirm_answer(key: Key, ctrl: bool) -> Option<bool> {
    match key {
        Key::Enter => Some(true),
        Key::Char(c) => if c == 'y' || c == 'Y' {
            Some(true)
        } else if c == 'n' || c == 'N' {
            Some(false)
        } else if c == 'c' && ctrl {
            Some(false)
        } else {
            None
        },
        Key::Esc => Some(false),
        _ => None,
    }
}

/// What a key does to an approval prompt.
pub fn confirm_key(key: Key, ctrl: bool) -> (r: Option<bool>)
    ensures
        r == confirm_answer(key, ctrl),
{
    match key {
        Key::Enter => Some(true),
        Key::Char(c) => if c == 'y' || c == 'Y' {
            Some(true)
        } else if c == 'n' || c == 'N' {
            Some(false)
        } else if c == 'c' && ctrl {
            Some(false)
        } else {
            None
        },
        Key::Esc => Some(false),
        _ => None,
    }
}

/// What a key does while reading a line of input.
#[derive(Debug, PartialEq, Eq)]
pub enum InputStep {
    /// The line is entered; `echo` is what goes into the scrollback (none
    /// for a blank line).
    Submit { line: String, echo: Option<String> },
    /// Input ends (Ctrl-C, or Ctrl-D on an empty line).
    Quit,
    /// The line being typed is now this.
    Edit(String),
}

pub enum InputStepV {
    Submit(Seq<char>, Option<Seq<char>>),
    Quit,
    Edit(Seq<char>),
}

pub open spec fn input_step_view(s: InputStep) -> InputStepV {
    match s {
        InputStep::Submit { line, echo } => InputStepV::Submit(line@, match echo {
            Some(e) => Some(e@),
            None => None,
        }),
        InputStep::Quit => InputStepV::Quit,
        InputStep::Edit(t) => InputStepV::Edit(t@),
    }
}

/// The effect of a key on the line being typed.
pub open spec fn input_effect(input: Seq<char>, key: Key, ctrl: bool) -> InputStepV {
    match key {
        Key::Enter => InputStepV::Submit(
            input,
            if trim(input).len() > 0 { Some("you› "@ + trim(input)) } else { None },
        ),
        Key::Char(c) => if c == 'c' && ctrl {
            InputStepV::Quit
        } else if c == 'd' && ctrl && input.len() == 0 {
            InputStepV::Quit
        } else {
            InputStepV::Edit(input.push(c))
        },
        Key::Backspace => InputStepV::Edit(if input.len() > 0 { input.drop_last() } else { input }),
        Key::Esc => InputStepV::Edit(Seq::empty()),
        Key::Other => InputStepV::Edit(input),
    }
}

/// Apply a key to the line being typed.
pub fn input_key(input: &str, key: Key, ctrl: bool) -> (r: InputStep)
    ensures
        input_step_view(r) == input_effect(input@, key, ctrl),
{
    let ic = chars_of(input);
    match key {
        Key::Enter => {
            let t = trim_exec(&ic);
            let echo = if t.len() > 0 {
                let mut e = chars_of("you› ");
                push_all(&mut e, &t);
                Some(string_of(&e))
            } else {
                None
            };
            InputStep::Submit { line: String::from_str(input), echo }
        },
        Key::Char(c) => {
            if c == 'c' && ctrl {
                InputStep::Quit
            } else if c == 'd' && ctrl && ic.len() == 0 {
                InputStep::Quit
            } else {
                let mut t = ic;
                t.push(c);
                InputStep::Edit(string_of(&t))
            }
        },
        Key::Backspace => {
            if ic.len() > 0 {
                let t = slice_of(&ic, 0, ic.len() - 1);
                assert(t@ =~= input@.drop_last());
                InputStep::Edit(string_of(&t))
            } else {
                InputStep::Edit(String::from_str(input))
            }
        },
        Key::Esc => InputStep::Edit(String::new()),
        Key::Other => InputStep::Edit(String::from_str(input)),
    }
}

} // verus!
