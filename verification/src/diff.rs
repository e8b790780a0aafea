//! Colorized previews of a file change, from the line diff `similar`
//! computes.

use vstd::prelude::*;
use crate::text::{chars_eq, chars_of, ends_with, push_all, push_str, slice_of, string_of};
use crate::ui::{BOLD, GREEN, GREY, RED, RESET};

verus! {

/// What a line of a diff does.
#[derive(Debug, Clone, Copy, PartialEq, Eq, Structural)]
pub enum ChangeKind {
    Delete,
    Insert,
    Equal,
}

/// The hunks `similar` makes of two texts line by line with `context`
/// lines of context: each hunk's changed and context lines, with their
/// newline.
pub uninterp spec fn line_diff(old: Seq<char>, new: Seq<char>, context: nat) -> Seq<Seq<(ChangeKind, Seq<char>)>>;

/// Lines of context around each change in a preview.
pub const CONTEXT_LINES: usize = 3;

pub open spec fn change_view(c: (ChangeKind, String)) -> (ChangeKind, Seq<char>) {
    (c.0, c.1@)
}

pub open spec fn group_view(g: Seq<(ChangeKind, String)>) -> Seq<(ChangeKind, Seq<char>)> {
    g.map_values(|c: (ChangeKind, String)| change_view(c))
}

pub open spec fn groups_view(gs: Seq<Vec<(ChangeKind, String)>>) -> Seq<Seq<(ChangeKind, Seq<char>)>> {
    gs.map_values(|g: Vec<(ChangeKind, String)>| group_view(g@))
}

/// The hunks of a line diff with `similar::TextDiff::from_lines` and
/// `grouped_ops(context)`.
#[verifier::external_body]
fn diff_hunks(old: &str, new: &str, context: usize) -> (r: Vec<Vec<(ChangeKind, String)>>)
    ensures
        groups_view(r@) == line_diff(old@, new@, context as nat),
{
    let diff = similar::TextDiff::from_lines(old, new);
    diff.grouped_ops(context).iter().map(|group| {
        group.iter().flat_map(|op| diff.iter_changes(op)).map(|c| {
            let kind = match c.tag() {
                similar::ChangeTag::Delete => ChangeKind::Delete,
                similar::ChangeTag::Insert => ChangeKind::Insert,
                similar::ChangeTag::Equal => ChangeKind::Equal,
            };
            (kind, c.value().to_string())
        }).collect()
    }).collect()
}

/// A line without its trailing newline.
pub open spec fn strip_newline(s: Seq<char>) -> Seq<char> {
    if s.len() > 0 && s.last() == '\n' {
        s.drop_last()
    } else {
        s
    }
}

/// A diff line: red `-`, green `+` or grey ` `, then the text.
pub open spec fn change_line(c: (ChangeKind, Seq<char>)) -> Seq<char> {
    let (sign, color) = match c.0 {
        ChangeKind::Delete => ("-"@, RED@),
        ChangeKind::Insert => ("+"@, GREEN@),
        ChangeKind::Equal => (" "@, GREY@),
    };
    color + sign + " "@ + strip_newline(c.1) + RESET@ + "\n"@
}

pub open spec fn hunk_text(g: Seq<(ChangeKind, Seq<char>)>) -> Seq<char>
    decreases g.len(),
{
    if g.len() == 0 {
        Seq::empty()
    } else {
        hunk_text(g.drop_last()) + change_line(g.last())
    }
}

/// The hunks, a grey `⋮` line between two.
pub open spec fn hunks_text(gs: Seq<Seq<(ChangeKind, Seq<char>)>>) -> Seq<char>
    decreases gs.len(),
{
    if gs.len() == 0 {
        Seq::empty()
    } else {
        hunks_text(gs.drop_last()) + (if gs.len() > 1 { GREY@ + "  ⋮"@ + RESET@ + "\n"@ } else { Seq::empty() })
            + hunk_text(gs.last())
    }
}

/// The preview of a change to `path`.
pub open spec fn rendered(path: Seq<char>, old: Seq<char>, new: Seq<char>) -> Seq<char> {
    let header = BOLD@ + path + RESET@;
    if old == new {
        header + "\n(no changes)"@
    } else {
        let gs = line_diff(old, new, CONTEXT_LINES as nat);
        if gs.len() == 0 {
            header + "\n"@ + "(no textual changes)"@
        } else {
            header + "\n"@ + hunks_text(gs)
        }
    }
}

fn change_line_exec(c: &(ChangeKind, String)) -> (r: Vec<char>)
    ensures
        r@ == change_line(change_view(*c)),
{
    let (sign, color) = match c.0 {
        ChangeKind::Delete => ("-", RED),
        ChangeKind::Insert => ("+", GREEN),
        ChangeKind::Equal => (" ", GREY),
    };
    let v = chars_of(c.1.as_str());
    let val = if v.len() > 0 && v[v.len() - 1] == '\n' {
        let t = slice_of(&v, 0, v.len() - 1);
        assert(t@ =~= v@.drop_last());
        t
    } else {
        v
    };
    let mut out = chars_of(color);
    push_str(&mut out, sign);
    push_str(&mut out, " ");
    push_all(&mut out, &val);
    push_str(&mut out, RESET);
    push_str(&mut out, "\n");
    out
}

/// Render a compact, colorized unified diff (3 lines of context per hunk).
pub fn render(path: &str, old: &str, new: &str) -> (r: String)
    ensures
        r@ == rendered(path@, old@, new@),
{
    let mut out = chars_of(BOLD);
    push_str(&mut out, path);
    push_str(&mut out, RESET);
    let oc = chars_of(old);
    let nc = chars_of(new);
    if chars_eq(&oc, &nc) {
        push_str(&mut out, "\n(no changes)");
        return string_of(&out);
    }
    push_str(&mut out, "\n");
    let groups = diff_hunks(old, new, CONTEXT_LINES);
    let ghost gv = groups_view(groups@);
    if groups.len() == 0 {
        push_str(&mut out, "(no textual changes)");
        return string_of(&out);
    }
    let ghost head = out@;
    let mut gi: usize = 0;
    assert(gv.take(0) =~= Seq::<Seq<(ChangeKind, Seq<char>)>>::empty());
    while gi < groups.len()
        invariant
            gi <= groups@.len(),
            gv == groups_view(groups@),
            out@ == head + hunks_text(gv.take(gi as int)),
        decreases groups.len() - gi,
    {
        let ghost before = out@;
        if gi > 0 {
            push_str(&mut out, GREY);
            push_str(&mut out, "  ⋮");
            push_str(&mut out, RESET);
            push_str(&mut out, "\n");
        }
        let ghost mid = out@;
        let g = &groups[gi];
        let ghost g_v = group_view(g@);
        let mut ci: usize = 0;
        assert(g_v.take(0) =~= Seq::<(ChangeKind, Seq<char>)>::empty());
        while ci < g.len()
            invariant
                ci <= g@.len(),
                g_v == group_view(g@),
                out@ == mid + hunk_text(g_v.take(ci as int)),
            decreases g.len() - ci,
        {
            let line = change_line_exec(&g[ci]);
            push_all(&mut out, &line);
            assert(g_v.take(ci + 1).drop_last() =~= g_v.take(ci as int));
            assert(g_v.take(ci + 1).last() == change_view(g@[ci as int]));
            assert(out@ =~= mid + hunk_text(g_v.take(ci + 1)));
            ci += 1;
        }
        assert(g_v.take(ci as int) =~= g_v);
        assert(gv.take(gi + 1).drop_last() =~= gv.take(gi as int));
        assert(gv.take(gi + 1).last() == g_v);
        assert(out@ =~= head + hunks_text(gv.take(gi + 1)));
        gi += 1;
    }
    assert(gv.take(gi as int) =~= gv);
    string_of(&out)
}

} // verus!
