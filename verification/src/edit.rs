//! Fail-loud search/replace edits: an edit either changes exactly what was
//! asked for, or is refused with an explanation — never a silent no-op.

use vstd::prelude::*;
use crate::text::{
    chars_of, count_char, decimal, decimal_exec, join, join_exec, lines, lines_exec, match_at,
    positions, positions_exec, positions_from, push_all, push_str, slice_of, string_of, trim,
    trim_exec, views, count_matches, count_matches_exec, replace_all, replace_all_exec,
    replace_first, replace_from, find, find_exec, find_from, lemma_positions_find,
};

verus! {

/// Why an edit was refused.
#[derive(Debug, PartialEq, Eq)]
pub enum EditError {
    /// The search text was empty.
    EmptyOld,
    /// The search text does not occur in the file.
    NotFound,
    /// The search text occurs `count` times and `replace_all` was not set;
    /// `occurrences` lists where (see [`describe_occurrences`]).
    Ambiguous { count: usize, occurrences: String },
}

/// The last line that is not blank, or the empty text if there is none.
pub open spec fn last_nonblank(ls: Seq<Seq<char>>) -> Seq<char>
    decreases ls.len(),
{
    if ls.len() == 0 {
        Seq::empty()
    } else if trim(ls.last()).len() > 0 {
        ls.last()
    } else {
        last_nonblank(ls.drop_last())
    }
}

/// The report line for an occurrence starting at `pos`: its 1-based line
/// number and the nearest non-blank line before it.
pub open spec fn occurrence_line(file: Seq<char>, pos: int) -> Seq<char> {
    let before = file.subrange(0, pos);
    "  - line "@ + decimal(count_char(before, '\n') + 1) + ", directly below: `"@ + trim(
        last_nonblank(lines(before)),
    ) + "`"@
}

/// At most this many occurrences are listed.
pub open spec fn max_listed() -> nat {
    8
}

/// The occurrences that are listed: the first eight.
pub open spec fn listed_positions(file: Seq<char>, old: Seq<char>) -> Seq<int> {
    let ps = positions(file, old);
    if ps.len() > max_listed() {
        ps.take(max_listed() as int)
    } else {
        ps
    }
}

/// The ambiguity report: one line per listed occurrence under a heading,
/// or nothing when `old` does not occur.
pub open spec fn occurrences_text(file: Seq<char>, old: Seq<char>) -> Seq<char> {
    let ps = listed_positions(file, old);
    if ps.len() == 0 {
        Seq::empty()
    } else {
        "\nOccurrences:\n"@ + join(ps.map_values(|q: int| occurrence_line(file, q)), "\n"@)
    }
}

/// The message shown for a refused edit.
pub open spec fn edit_error_text(e: EditError) -> Seq<char> {
    match e {
        EditError::EmptyOld => "old_string must not be empty"@,
        EditError::NotFound =>
            "old_string not found in file (no changes made). Re-read the file and copy the exact text."@,
        EditError::Ambiguous { count, occurrences } => "old_string appears "@ + decimal(
            count as nat,
        ) + AMBIGUOUS_MIDDLE@ + decimal(count as nat) + " occurrences."@ + occurrences@,
    }
}

/// The advice between the two counts of the ambiguity message.
pub const AMBIGUOUS_MIDDLE: &'static str =
    " times, so it is ambiguous. Include the preceding line (shown below) in old_string to target exactly ONE occurrence — e.g. put the `def`/declaration line first. Only set replace_all=true if you truly intend to change ALL ";

impl EditError {
    /// The human-readable explanation of the refusal.
    pub fn message(&self) -> (r: String)
        ensures
            r@ == edit_error_text(*self),
    {
        match self {
            EditError::EmptyOld => String::from_str("old_string must not be empty"),
            EditError::NotFound => String::from_str(
                "old_string not found in file (no changes made). Re-read the file and copy the exact text.",
            ),
            EditError::Ambiguous { count, occurrences } => {
                let mut v: Vec<char> = Vec::new();
                push_str(&mut v, "old_string appears ");
                let d = decimal_exec(*count as u128);
                push_all(&mut v, &d);
                push_str(&mut v, AMBIGUOUS_MIDDLE);
                push_all(&mut v, &d);
                push_str(&mut v, " occurrences.");
                push_str(&mut v, occurrences.as_str());
                string_of(&v)
            },
        }
    }
}

/// The nearest non-blank line among `ls`, or empty.
fn last_nonblank_exec(ls: &Vec<Vec<char>>) -> (r: Vec<char>)
    ensures
        r@ == last_nonblank(views(ls@)),
{
    let mut i = ls.len();
    assert(views(ls@).take(ls.len() as int) =~= views(ls@));
    while i > 0
        invariant
            i <= ls.len(),
            last_nonblank(views(ls@)) == last_nonblank(views(ls@).take(i as int)),
        decreases i,
    {
        let ghost t = views(ls@).take(i as int);
        assert(t.last() == ls@[i - 1]@);
        let tr = trim_exec(&ls[i - 1]);
        if tr.len() > 0 {
            return slice_of(&ls[i - 1], 0, ls[i - 1].len());
        }
        assert(t.drop_last() =~= views(ls@).take(i - 1));
        i -= 1;
    }
    assert(views(ls@).take(0) =~= Seq::<Seq<char>>::empty());
    Vec::new()
}

/// Number of `'\n'` characters in `s[..n]`.
fn count_newlines(s: &Vec<char>, n: usize) -> (r: usize)
    requires
        n <= s.len(),
    ensures
        r == count_char(s@.subrange(0, n as int), '\n'),
{
    let mut k = n;
    let mut r: usize = 0;
    while k > 0
        invariant
            k <= n <= s.len(),
            r <= n - k,
            r + count_char(s@.subrange(0, k as int), '\n') == count_char(
                s@.subrange(0, n as int),
                '\n',
            ),
        decreases k,
    {
        proof {
            lemma_count_char_last(s@.subrange(0, k as int), '\n');
            assert(s@.subrange(0, k as int).drop_last() =~= s@.subrange(0, k - 1));
        }
        if s[k - 1] == '\n' {
            r += 1;
        }
        k -= 1;
    }
    r
}

/// Counting a character is additive over a split at the last element.
pub proof fn lemma_count_char_last(s: Seq<char>, c: char)
    requires
        s.len() > 0,
    ensures
        count_char(s, c) == count_char(s.drop_last(), c) + (if s.last() == c { 1nat } else { 0nat }),
    decreases s.len(),
{
    if s.len() == 1 {
        assert(s.drop_last().len() == 0);
        assert(s.drop_first().len() == 0);
        assert(count_char(s.drop_first(), c) == 0);
        assert(count_char(s.drop_last(), c) == 0);
    } else {
        lemma_count_char_last(s.drop_first(), c);
        assert(s.drop_first().drop_last() =~= s.drop_last().drop_first());
        assert(s.drop_last()[0] == s[0]);
        assert(s.drop_first().last() == s.last());
    }
}

/// One report line for the occurrence at `pos`.
fn occurrence_line_exec(file: &Vec<char>, pos: usize) -> (r: Vec<char>)
    requires
        pos <= file.len(),
    ensures
        r@ == occurrence_line(file@, pos as int),
{
    let before = slice_of(file, 0, pos);
    let n = count_newlines(file, pos);
    let ls = lines_exec(&before);
    let prev = last_nonblank_exec(&ls);
    let prev_t = trim_exec(&prev);
    let mut v: Vec<char> = Vec::new();
    push_str(&mut v, "  - line ");
    let d = decimal_exec(n as u128 + 1);
    push_all(&mut v, &d);
    push_str(&mut v, ", directly below: `");
    push_all(&mut v, &prev_t);
    push_str(&mut v, "`");
    v
}

/// List (up to eight of) the occurrences of `old` in `file`, each with its
/// line number and nearest preceding non-blank line, so that an ambiguous
/// edit can be disambiguated.
pub fn describe_occurrences(file: &Vec<char>, old: &Vec<char>) -> (r: Vec<char>)
    requires
        old.len() > 0,
    ensures
        r@ == occurrences_text(file@, old@),
{
    let ps = positions_exec(file, old);
    let ghost all = positions(file@, old@);
    let ghost listed = listed_positions(file@, old@);
    let n = if ps.len() > 8 { 8 } else { ps.len() };
    assert(listed.len() == n);
    if n == 0 {
        assert(occurrences_text(file@, old@) == Seq::<char>::empty());
        return Vec::new();
    }
    proof {
        lemma_positions_bounded(file@, old@, 0);
    }
    let mut info: Vec<Vec<char>> = Vec::new();
    let mut i: usize = 0;
    while i < n
        invariant
            n <= ps.len(),
            ps@.len() == all.len(),
            forall|k: int| 0 <= k < ps@.len() ==> ps@[k] as int == all[k],
            forall|k: int| 0 <= k < all.len() ==> 0 <= #[trigger] all[k] <= file@.len(),
            listed.len() == n,
            forall|k: int| 0 <= k < n ==> listed[k] == all[k],
            i <= n,
            views(info@) =~= listed.take(i as int).map_values(|q: int| occurrence_line(file@, q)),
        decreases n - i,
    {
        assert(0 <= all[i as int] <= file@.len());
        let line = occurrence_line_exec(file, ps[i]);
        let ghost old_views = views(info@);
        assert(line@ == occurrence_line(file@, listed[i as int]));
        info.push(line);
        assert(views(info@) =~= old_views.push(line@));
        assert(listed.take(i + 1) =~= listed.take(i as int).push(listed[i as int]));
        assert(listed.take(i + 1).map_values(|q: int| occurrence_line(file@, q)) =~= listed.take(
            i as int,
        ).map_values(|q: int| occurrence_line(file@, q)).push(occurrence_line(file@, listed[i as int])));
        i += 1;
    }
    assert(listed.take(n as int) =~= listed);
    assert(views(info@) =~= listed.map_values(|q: int| occurrence_line(file@, q)));
    let sep = chars_of("\n");
    let body = join_exec(&info, &sep);
    let mut out: Vec<char> = Vec::new();
    push_str(&mut out, "\nOccurrences:\n");
    push_all(&mut out, &body);
    assert(sep@ == "\n"@);
    assert(body@ == join(listed.map_values(|q: int| occurrence_line(file@, q)), "\n"@));
    assert(out@ == "\nOccurrences:\n"@ + join(listed.map_values(|q: int| occurrence_line(file@, q)), "\n"@));
    assert(listed.len() > 0);
    assert(out@ == occurrences_text(file@, old@));
    out
}

/// Every reported occurrence lies within the text.
pub proof fn lemma_positions_bounded(s: Seq<char>, p: Seq<char>, i: int)
    requires
        p.len() > 0,
        0 <= i,
    ensures
        forall|k: int|
            0 <= k < positions_from(s, p, i).len() ==> i <= #[trigger] positions_from(s, p, i)[k]
                && positions_from(s, p, i)[k] + p.len() <= s.len(),
    decreases s.len() - i,
{
    if i + p.len() > s.len() {
    } else if match_at(s, i, p) {
        lemma_positions_bounded(s, p, i + p.len());
        let rest = positions_from(s, p, i + p.len());
        assert(positions_from(s, p, i) == seq![i] + rest);
        assert forall|k: int| 0 <= k < positions_from(s, p, i).len() implies i
            <= #[trigger] positions_from(s, p, i)[k] && positions_from(s, p, i)[k] + p.len()
            <= s.len() by {
            if k > 0 {
                assert(positions_from(s, p, i)[k] == rest[k - 1]);
            }
        }
    } else {
        lemma_positions_bounded(s, p, i + 1);
        assert(positions_from(s, p, i) == positions_from(s, p, i + 1));
    }
}


/// `file` with the first occurrence of `old` replaced by `new` (`replacen(.., 1)`).
fn replace_first_exec(file: &Vec<char>, old: &Vec<char>, new: &Vec<char>) -> (r: Vec<char>)
    ensures
        r@ == replace_first(file@, old@, new@),
{
    match find_exec(file, old) {
        Some(i) => {
            proof {
                lemma_find_bounds(file@, old@, 0);
            }
            let mut r = slice_of(file, 0, i);
            push_all(&mut r, new);
            let tail = slice_of(file, i + old.len(), file.len());
            push_all(&mut r, &tail);
            r
        },
        None => slice_of(file, 0, file.len()),
    }
}

/// An index reported by `find_from` is a real occurrence within bounds.
pub proof fn lemma_find_bounds(s: Seq<char>, p: Seq<char>, i: int)
    ensures
        find_from(s, p, i) matches Some(j) ==> i <= j && j + p.len() <= s.len() && match_at(s, j, p),
    decreases s.len() + 1 - i,
{
    if i < 0 || i + p.len() > s.len() {
    } else if match_at(s, i, p) {
    } else {
        lemma_find_bounds(s, p, i + 1);
    }
}

/// Apply a fail-loud search/replace to `file`: replace the single occurrence
/// of `old` by `new` (or every occurrence when `replace_all`), returning the
/// new text and the number of replacements.
///
/// Refused when `old` is empty, when it does not occur, or when it occurs
/// more than once and `replace_all` is not set.
pub fn apply_edit(file: &str, old: &str, new: &str, replace_all: bool) -> (r: Result<
    (String, usize),
    EditError,
>)
    ensures
        old@.len() == 0 ==> r == Err::<(String, usize), EditError>(EditError::EmptyOld),
        old@.len() > 0 && count_matches(file@, old@) == 0 ==> r == Err::<(String, usize), EditError>(
            EditError::NotFound,
        ),
        old@.len() > 0 && count_matches(file@, old@) > 1 && !replace_all ==> (r matches Err(
            EditError::Ambiguous { count, occurrences },
        ) && count == count_matches(file@, old@) && occurrences@ == occurrences_text(file@, old@)),
        old@.len() > 0 && count_matches(file@, old@) >= 1 && (replace_all || count_matches(
            file@,
            old@,
        ) == 1) ==> (r matches Ok((text, n)) && text@ == (if replace_all {
            crate::text::replace_all(file@, old@, new@)
        } else {
            replace_first(file@, old@, new@)
        }) && n == (if replace_all {
            count_matches(file@, old@)
        } else {
            1
        })),
{
    let fc = chars_of(file);
    let oc = chars_of(old);
    let nc = chars_of(new);
    if oc.len() == 0 {
        return Err(EditError::EmptyOld);
    }
    let count = count_matches_exec(&fc, &oc);
    if count == 0 {
        return Err(EditError::NotFound);
    }
    if count > 1 && !replace_all {
        let occ = describe_occurrences(&fc, &oc);
        return Err(EditError::Ambiguous { count, occurrences: string_of(&occ) });
    }
    if replace_all {
        let out = replace_all_exec(&fc, &oc, &nc);
        Ok((string_of(&out), count))
    } else {
        let out = replace_first_exec(&fc, &oc, &nc);
        Ok((string_of(&out), 1))
    }
}

// ---------------------------------------------------------------------------
// Laws
// ---------------------------------------------------------------------------

/// Replacing from an index past the last occurrence copies the rest verbatim.
pub proof fn lemma_replace_no_match(s: Seq<char>, p: Seq<char>, r: Seq<char>, i: int)
    requires
        p.len() > 0,
        0 <= i <= s.len(),
        positions_from(s, p, i).len() == 0,
    ensures
        replace_from(s, p, r, i) == s.subrange(i, s.len() as int),
    decreases s.len() - i,
{
    if i >= s.len() {
        assert(s.subrange(i, s.len() as int) =~= Seq::<char>::empty());
    } else if i + p.len() > s.len() {
    } else if match_at(s, i, p) {
        assert(positions_from(s, p, i).len() > 0);
    } else {
        assert(positions_from(s, p, i) == positions_from(s, p, i + 1));
        lemma_replace_no_match(s, p, r, i + 1);
        assert(s.subrange(i, s.len() as int) =~= seq![s[i]] + s.subrange(i + 1, s.len() as int));
    }
}

/// Replacing from `i` copies the text up to the next occurrence `q`,
/// substitutes `r` for it, and continues after it.
pub proof fn lemma_replace_first_step(s: Seq<char>, p: Seq<char>, r: Seq<char>, i: int)
    requires
        p.len() > 0,
        0 <= i,
        positions_from(s, p, i).len() > 0,
    ensures
        ({
            let q = positions_from(s, p, i)[0];
            &&& i <= q
            &&& q + p.len() <= s.len()
            &&& replace_from(s, p, r, i) == s.subrange(i, q) + r + replace_from(s, p, r, q + p.len())
            &&& positions_from(s, p, q + p.len()) == positions_from(s, p, i).drop_first()
        }),
    decreases s.len() - i,
{
    if i + p.len() > s.len() {
    } else if match_at(s, i, p) {
        let rest = positions_from(s, p, i + p.len());
        assert(positions_from(s, p, i) == seq![i] + rest);
        assert(positions_from(s, p, i).drop_first() =~= rest);
        assert(s.subrange(i, i) =~= Seq::<char>::empty());
        assert(replace_from(s, p, r, i) == r + replace_from(s, p, r, i + p.len()));
        assert(s.subrange(i, i) + r =~= r);
    } else {
        assert(positions_from(s, p, i) == positions_from(s, p, i + 1));
        lemma_replace_first_step(s, p, r, i + 1);
        let q = positions_from(s, p, i)[0];
        assert(replace_from(s, p, r, i) == seq![s[i]] + replace_from(s, p, r, i + 1));
        assert(s.subrange(i, q) =~= seq![s[i]] + s.subrange(i + 1, q));
        assert(seq![s[i]] + (s.subrange(i + 1, q) + r + replace_from(s, p, r, q + p.len()))
            =~= s.subrange(i, q) + r + replace_from(s, p, r, q + p.len()));
    }
}

/// Law: when `old` occurs exactly once, replacing "all" occurrences and
/// replacing the first one produce the same text — so a unique edit is
/// unaffected by the `replace_all` flag.
pub proof fn law_unique_edit_ignores_replace_all(file: Seq<char>, old: Seq<char>, new: Seq<char>)
    requires
        old.len() > 0,
        count_matches(file, old) == 1,
    ensures
        crate::text::replace_all(file, old, new) == replace_first(file, old, new),
{
    lemma_replace_first_step(file, old, new, 0);
    lemma_positions_find(file, old, 0);
    let q = positions(file, old)[0];
    assert(positions_from(file, old, q + old.len()).len() == 0);
    lemma_replace_no_match(file, old, new, q + old.len());
    assert(find(file, old) == Some(q));
}

/// Law: a successful single edit splices `new` in place of exactly one
/// occurrence of `old` — the text before it is unchanged, the text after it
/// is unchanged, and there was no earlier occurrence.
pub proof fn law_single_edit_is_splice(file: Seq<char>, old: Seq<char>, new: Seq<char>)
    requires
        old.len() > 0,
        count_matches(file, old) >= 1,
    ensures
        ({
            let q = positions(file, old)[0];
            &&& match_at(file, q, old)
            &&& forall|j: int| 0 <= j < q ==> !match_at(file, j, old)
            &&& replace_first(file, old, new) == file.subrange(0, q) + new + file.subrange(
                q + old.len(),
                file.len() as int,
            )
        }),
{
    lemma_positions_find(file, old, 0);
    lemma_find_first(file, old, 0);
    lemma_find_bounds(file, old, 0);
}

/// `find_from` reports the first occurrence at or after `i`.
pub proof fn lemma_find_first(s: Seq<char>, p: Seq<char>, i: int)
    requires
        0 <= i,
    ensures
        find_from(s, p, i) matches Some(j) ==> forall|k: int| i <= k < j ==> !match_at(s, k, p),
        find_from(s, p, i) is None ==> forall|k: int| i <= k ==> !match_at(s, k, p),
    decreases s.len() + 1 - i,
{
    if i + p.len() > s.len() {
    } else if match_at(s, i, p) {
    } else {
        lemma_find_first(s, p, i + 1);
    }
}


proof fn lemma_positions_none(s: Seq<char>, p: Seq<char>, i: int)
    requires
        forall|j: int| j >= i ==> !match_at(s, j, p),
    ensures
        positions_from(s, p, i).len() == 0,
    decreases s.len() - i,
{
    if p.len() == 0 || i < 0 || i + p.len() > s.len() {
    } else {
        lemma_positions_none(s, p, i + 1);
    }
}

/// Where `p` occurs at one index only, at `q`, it is found there and
/// counted once.
proof fn lemma_single_occurrence(s: Seq<char>, p: Seq<char>, i: int, q: int)
    requires
        p.len() > 0,
        0 <= i <= q,
        match_at(s, q, p),
        forall|j: int| match_at(s, j, p) ==> j == q,
    ensures
        positions_from(s, p, i) == seq![q],
        find_from(s, p, i) == Some(q),
    decreases q - i,
{
    if i == q {
        lemma_positions_none(s, p, q + p.len());
        assert(positions_from(s, p, q) =~= seq![q]);
    } else {
        assert(!match_at(s, i, p));
        lemma_single_occurrence(s, p, i + 1, q);
    }
}

/// Law: a single edit is undone by the reverse edit. When `old` occurs once
/// in `file` and the edited text holds `new` at one index only (overlapping
/// occurrences counted), `new` occurs once there and replacing it by `old`
/// gives `file` back — so `edit_file` with the strings swapped restores the
/// file.
pub proof fn law_reverse_edit_restores(file: Seq<char>, old: Seq<char>, new: Seq<char>)
    requires
        old.len() > 0,
        new.len() > 0,
        count_matches(file, old) == 1,
        exists|k: int|
            match_at(replace_first(file, old, new), k, new) && forall|j: int|
                match_at(replace_first(file, old, new), j, new) ==> j == k,
    ensures
        count_matches(replace_first(file, old, new), new) == 1,
        replace_first(replace_first(file, old, new), new, old) == file,
{
    law_single_edit_is_splice(file, old, new);
    let q = positions(file, old)[0];
    let g = replace_first(file, old, new);
    assert(g == file.subrange(0, q) + new + file.subrange(q + old.len(), file.len() as int));
    assert(g.subrange(q, q + new.len()) =~= new);
    assert(match_at(g, q, new));
    let k = choose|k: int| match_at(g, k, new) && forall|j: int| match_at(g, j, new) ==> j == k;
    assert(k == q);
    lemma_single_occurrence(g, new, 0, q);
    assert(find(g, new) == Some(q));
    assert(g.subrange(0, q) =~= file.subrange(0, q));
    assert(g.subrange(q + new.len(), g.len() as int) =~= file.subrange(q + old.len(), file.len() as int));
    assert(file.subrange(q, q + old.len()) == old);
    assert(file.subrange(0, q) + old + file.subrange(q + old.len(), file.len() as int) =~= file);
}

} // verus!
