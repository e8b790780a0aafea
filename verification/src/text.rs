//! Character-level text utilities with exact specifications.
//!
//! Strings are reasoned about as sequences of `char`s (their view). Every
//! executable helper here states its result over the spec functions below.

use vstd::prelude::*;
use vstd::string::StringSliceAdditionalSpecFns;

verus! {

// ---------------------------------------------------------------------------
// Specifications
// ---------------------------------------------------------------------------

/// `p` occurs in `s` starting at index `i`.
pub open spec fn match_at(s: Seq<char>, i: int, p: Seq<char>) -> bool {
    &&& 0 <= i
    &&& i + p.len() <= s.len()
    &&& s.subrange(i, i + p.len()) == p
}

pub open spec fn starts_with(s: Seq<char>, p: Seq<char>) -> bool {
    match_at(s, 0, p)
}

pub open spec fn ends_with(s: Seq<char>, p: Seq<char>) -> bool {
    p.len() <= s.len() && match_at(s, s.len() - p.len(), p)
}

/// `p` occurs somewhere in `s`.
pub open spec fn contains(s: Seq<char>, p: Seq<char>) -> bool {
    exists|i: int| match_at(s, i, p)
}

/// The first index at or after `i` where `p` occurs (`str::find` from `i`).
pub open spec fn find_from(s: Seq<char>, p: Seq<char>, i: int) -> Option<int>
    decreases s.len() + 1 - i,
{
    if i < 0 || i + p.len() > s.len() {
        None
    } else if match_at(s, i, p) {
        Some(i)
    } else {
        find_from(s, p, i + 1)
    }
}

/// The first index where `p` occurs (`str::find`).
pub open spec fn find(s: Seq<char>, p: Seq<char>) -> Option<int> {
    find_from(s, p, 0)
}

/// The last index where `p` occurs (`str::rfind`), searching down from `i`.
pub open spec fn rfind_upto(s: Seq<char>, p: Seq<char>, i: int) -> Option<int>
    decreases i + 1,
{
    if i < 0 {
        None
    } else if match_at(s, i, p) {
        Some(i)
    } else {
        rfind_upto(s, p, i - 1)
    }
}

pub open spec fn rfind(s: Seq<char>, p: Seq<char>) -> Option<int> {
    rfind_upto(s, p, s.len() - p.len())
}

/// Start indices of the non-overlapping, leftmost-first occurrences of a
/// non-empty `p` in `s`, scanning from `i` (what `str::match_indices` yields).
pub open spec fn positions_from(s: Seq<char>, p: Seq<char>, i: int) -> Seq<int>
    decreases s.len() - i,
{
    if p.len() == 0 || i < 0 || i + p.len() > s.len() {
        Seq::empty()
    } else if match_at(s, i, p) {
        seq![i] + positions_from(s, p, i + p.len())
    } else {
        positions_from(s, p, i + 1)
    }
}

pub open spec fn positions(s: Seq<char>, p: Seq<char>) -> Seq<int> {
    positions_from(s, p, 0)
}

/// Number of non-overlapping occurrences (`str::matches(p).count()`).
pub open spec fn count_matches(s: Seq<char>, p: Seq<char>) -> nat {
    positions(s, p).len()
}

/// `s[i..]` with every non-overlapping occurrence of `p` replaced by `r`.
pub open spec fn replace_from(s: Seq<char>, p: Seq<char>, r: Seq<char>, i: int) -> Seq<char>
    decreases s.len() - i,
{
    if i < 0 || i >= s.len() {
        Seq::empty()
    } else if p.len() == 0 || i + p.len() > s.len() {
        s.subrange(i, s.len() as int)
    } else if match_at(s, i, p) {
        r + replace_from(s, p, r, i + p.len())
    } else {
        seq![s[i]] + replace_from(s, p, r, i + 1)
    }
}

/// `str::replace(p, r)` for a non-empty `p`.
pub open spec fn replace_all(s: Seq<char>, p: Seq<char>, r: Seq<char>) -> Seq<char> {
    replace_from(s, p, r, 0)
}

/// `str::replacen(p, r, 1)`: only the first occurrence is replaced.
pub open spec fn replace_first(s: Seq<char>, p: Seq<char>, r: Seq<char>) -> Seq<char> {
    match find(s, p) {
        Some(i) => s.subrange(0, i) + r + s.subrange(i + p.len(), s.len() as int),
        None => s,
    }
}

/// Number of occurrences of the character `c`.
pub open spec fn count_char(s: Seq<char>, c: char) -> nat
    decreases s.len(),
{
    if s.len() == 0 {
        0
    } else {
        (if s[0] == c { 1nat } else { 0nat }) + count_char(s.drop_first(), c)
    }
}

/// Unicode `White_Space` (what `char::is_whitespace` tests).
pub open spec fn is_ws(c: char) -> bool {
    let u = c as u32;
    ||| 0x9 <= u <= 0xD
    ||| u == 0x20
    ||| u == 0x85
    ||| u == 0xA0
    ||| u == 0x1680
    ||| 0x2000 <= u <= 0x200A
    ||| u == 0x2028
    ||| u == 0x2029
    ||| u == 0x202F
    ||| u == 0x205F
    ||| u == 0x3000
}

/// Number of leading whitespace characters.
pub open spec fn lead_ws(s: Seq<char>) -> nat
    decreases s.len(),
{
    if s.len() > 0 && is_ws(s[0]) {
        1 + lead_ws(s.drop_first())
    } else {
        0
    }
}

/// Number of trailing whitespace characters.
pub open spec fn trail_ws(s: Seq<char>) -> nat
    decreases s.len(),
{
    if s.len() > 0 && is_ws(s.last()) {
        1 + trail_ws(s.drop_last())
    } else {
        0
    }
}

/// `str::trim_end`.
pub open spec fn trim_end(s: Seq<char>) -> Seq<char> {
    s.subrange(0, s.len() - trail_ws(s))
}

/// `str::trim_start`.
pub open spec fn trim_start(s: Seq<char>) -> Seq<char> {
    s.subrange(lead_ws(s) as int, s.len() as int)
}

/// `str::trim`.
pub open spec fn trim(s: Seq<char>) -> Seq<char> {
    trim_start(trim_end(s))
}

/// The text is empty or all whitespace (`s.trim().is_empty()`).
pub open spec fn is_blank(s: Seq<char>) -> bool {
    forall|i: int| 0 <= i < s.len() ==> is_ws(#[trigger] s[i])
}

/// Drop one trailing `'\r'`, if present.
pub open spec fn strip_cr(s: Seq<char>) -> Seq<char> {
    if s.len() > 0 && s.last() == '\r' {
        s.drop_last()
    } else {
        s
    }
}

/// Index of the first `'\n'`.
pub open spec fn first_newline(s: Seq<char>) -> Option<int> {
    find(s, seq!['\n'])
}

/// `str::lines`: split at `'\n'`, each line without its `"\n"` / `"\r\n"`
/// terminator; a final terminator does not start an empty line.
pub open spec fn lines(s: Seq<char>) -> Seq<Seq<char>>
    decreases s.len(),
{
    if s.len() == 0 {
        Seq::empty()
    } else {
        match first_newline(s) {
            None => seq![s],
            Some(k) => if 0 <= k < s.len() {
                seq![strip_cr(s.subrange(0, k))] + lines(s.subrange(k + 1, s.len() as int))
            } else {
                Seq::empty()
            },
        }
    }
}

/// The character sequences held by a vector of character vectors.
pub open spec fn views(v: Seq<Vec<char>>) -> Seq<Seq<char>> {
    v.map_values(|l: Vec<char>| l@)
}

/// The texts held by a vector of strings.
pub open spec fn strings_view(v: Seq<String>) -> Seq<Seq<char>> {
    v.map_values(|s: String| s@)
}

/// Decimal digit character for `d < 10`.
pub open spec fn digit(d: nat) -> char {
    if d == 0 { '0' }
    else if d == 1 { '1' }
    else if d == 2 { '2' }
    else if d == 3 { '3' }
    else if d == 4 { '4' }
    else if d == 5 { '5' }
    else if d == 6 { '6' }
    else if d == 7 { '7' }
    else if d == 8 { '8' }
    else { '9' }
}

/// Decimal representation of a natural number (no sign, no leading zeros).
pub open spec fn decimal(n: nat) -> Seq<char>
    decreases n,
{
    if n < 10 {
        seq![digit(n)]
    } else {
        decimal(n / 10).push(digit(n % 10))
    }
}

/// Decimal representation of a signed integer (`i64::to_string`).
pub open spec fn signed_decimal(n: int) -> Seq<char> {
    if n < 0 {
        seq!['-'] + decimal((-n) as nat)
    } else {
        decimal(n as nat)
    }
}

/// Concatenation of `parts` with `sep` between consecutive parts (`join`).
pub open spec fn join(parts: Seq<Seq<char>>, sep: Seq<char>) -> Seq<char>
    decreases parts.len(),
{
    if parts.len() == 0 {
        Seq::empty()
    } else if parts.len() == 1 {
        parts[0]
    } else {
        join(parts.drop_last(), sep) + sep + parts.last()
    }
}

/// Number of bytes of the UTF-8 encoding of `c` (`char::len_utf8`).
pub open spec fn utf8_width(c: char) -> nat {
    let u = c as u32;
    if u < 0x80 { 1 } else if u < 0x800 { 2 } else if u < 0x10000 { 3 } else { 4 }
}

/// Number of bytes of the UTF-8 encoding of `s` (`str::len`).
pub open spec fn utf8_len(s: Seq<char>) -> nat
    decreases s.len(),
{
    if s.len() == 0 {
        0
    } else {
        utf8_len(s.drop_last()) + utf8_width(s.last())
    }
}


// ---------------------------------------------------------------------------
// Lemmas
// ---------------------------------------------------------------------------

/// The first of the non-overlapping occurrences is the one `find` reports.
pub proof fn lemma_positions_find(s: Seq<char>, p: Seq<char>, i: int)
    requires
        p.len() > 0,
        0 <= i,
    ensures
        (positions_from(s, p, i).len() > 0) == (find_from(s, p, i) is Some),
        positions_from(s, p, i).len() > 0 ==> positions_from(s, p, i)[0] == find_from(s, p, i)->0,
    decreases s.len() - i,
{
    if i + p.len() > s.len() {
    } else if match_at(s, i, p) {
    } else {
        lemma_positions_find(s, p, i + 1);
    }
}

pub proof fn lemma_decimal_nonempty(n: nat)
    ensures
        decimal(n).len() >= 1,
    decreases n,
{
    if n >= 10 {
        lemma_decimal_nonempty(n / 10);
    }
}

// ---------------------------------------------------------------------------
// Executable helpers
// ---------------------------------------------------------------------------

/// The characters of a string slice, in order.
pub fn chars_of(s: &str) -> (r: Vec<char>)
    ensures
        r@ == s@,
{
    let mut r: Vec<char> = Vec::new();
    for c in it: s.chars()
        invariant
            r@ == it.seq().take(it.index() as int),
            it.seq() == s@,
    {
        r.push(c);
    }
    r
}

/// A string holding exactly the given characters (`String::from_iter`).
#[verifier::external_body]
pub(crate) fn string_of(cs: &Vec<char>) -> (r: String)
    ensures
        r@ == cs@,
{
    String::from_iter(cs.iter())
}

/// Append all of `src` to `dst`.
pub fn push_all(dst: &mut Vec<char>, src: &Vec<char>)
    ensures
        final(dst)@ == old(dst)@ + src@,
{
    dst.extend_from_slice(src.as_slice());
}

/// Append the characters of a string slice to `dst`.
pub fn push_str(dst: &mut Vec<char>, src: &str)
    ensures
        final(dst)@ == old(dst)@ + src@,
{
    let cs = chars_of(src);
    push_all(dst, &cs);
}

/// `s[lo..hi]` as a fresh vector.
pub fn slice_of(s: &Vec<char>, lo: usize, hi: usize) -> (r: Vec<char>)
    requires
        lo <= hi <= s.len(),
    ensures
        r@ == s@.subrange(lo as int, hi as int),
{
    let mut r: Vec<char> = Vec::new();
    let mut i = lo;
    while i < hi
        invariant
            lo <= i <= hi <= s.len(),
            r@ == s@.subrange(lo as int, i as int),
        decreases hi - i,
    {
        r.push(s[i]);
        assert(s@.subrange(lo as int, i + 1) == s@.subrange(lo as int, i as int).push(s@[i as int]));
        i += 1;
    }
    r
}

/// Equality of two character sequences.
pub fn chars_eq(a: &Vec<char>, b: &Vec<char>) -> (r: bool)
    ensures
        r == (a@ == b@),
{
    if a.len() != b.len() {
        return false;
    }
    let mut i: usize = 0;
    while i < a.len()
        invariant
            a.len() == b.len(),
            i <= a.len(),
            forall|j: int| 0 <= j < i ==> a@[j] == b@[j],
        decreases a.len() - i,
    {
        if a[i] != b[i] {
            return false;
        }
        i += 1;
    }
    assert(a@ =~= b@);
    true
}

/// Whether `p` occurs in `s` at index `i`.
pub fn match_at_exec(s: &Vec<char>, i: usize, p: &Vec<char>) -> (b: bool)
    ensures
        b == match_at(s@, i as int, p@),
{
    if i > s.len() || p.len() > s.len() - i {
        return false;
    }
    let mut k: usize = 0;
    while k < p.len()
        invariant
            k <= p.len(),
            i + p.len() <= s.len(),
            forall|j: int| 0 <= j < k ==> s@[i + j] == p@[j],
        decreases p.len() - k,
    {
        if s[i + k] != p[k] {
            assert(s@.subrange(i as int, i + p.len())[k as int] != p@[k as int]);
            return false;
        }
        k += 1;
    }
    assert(s@.subrange(i as int, i + p@.len()) =~= p@);
    true
}

/// `str::find` starting at `start`.
pub fn find_from_exec(s: &Vec<char>, p: &Vec<char>, start: usize) -> (r: Option<usize>)
    ensures
        r matches Some(i) ==> find_from(s@, p@, start as int) == Some(i as int),
        r is None ==> find_from(s@, p@, start as int) is None,
{
    let mut i = start;
    while i <= s.len() && p.len() <= s.len() - i
        invariant
            start <= i,
            find_from(s@, p@, start as int) == find_from(s@, p@, i as int),
        decreases s.len() + 1 - i,
    {
        if match_at_exec(s, i, p) {
            return Some(i);
        }
        if i == s.len() {
            assert(s@.subrange(i as int, i as int) =~= p@);
            return None;
        }
        i += 1;
    }
    None
}

/// `str::find`.
pub fn find_exec(s: &Vec<char>, p: &Vec<char>) -> (r: Option<usize>)
    ensures
        r matches Some(i) ==> find(s@, p@) == Some(i as int),
        r is None ==> find(s@, p@) is None,
{
    find_from_exec(s, p, 0)
}

/// Whether `p` occurs in `s`.
pub fn contains_exec(s: &Vec<char>, p: &Vec<char>) -> (r: bool)
    ensures
        r == contains(s@, p@),
{
    let mut i: usize = 0;
    while i <= s.len() && p.len() <= s.len() - i
        invariant
            forall|j: int| 0 <= j < i ==> !match_at(s@, j, p@),
        decreases s.len() + 1 - i,
    {
        if match_at_exec(s, i, p) {
            return true;
        }
        if i == s.len() {
            assert(s@.subrange(i as int, i as int) =~= p@);
            return false;
        }
        i += 1;
    }
    assert forall|j: int| !match_at(s@, j, p@) by {
        if 0 <= j < i {
        }
    }
    false
}

/// Whether the string slice contains the string slice `p`.
pub fn str_contains(s: &str, p: &str) -> (r: bool)
    ensures
        r == contains(s@, p@),
{
    let sc = chars_of(s);
    let pc = chars_of(p);
    contains_exec(&sc, &pc)
}

/// `str::starts_with`.
pub fn starts_with_exec(s: &Vec<char>, p: &Vec<char>) -> (r: bool)
    ensures
        r == starts_with(s@, p@),
{
    match_at_exec(s, 0, p)
}

/// `str::ends_with`.
pub fn ends_with_exec(s: &Vec<char>, p: &Vec<char>) -> (r: bool)
    ensures
        r == ends_with(s@, p@),
{
    if p.len() > s.len() {
        false
    } else {
        match_at_exec(s, s.len() - p.len(), p)
    }
}

/// Start indices of the non-overlapping occurrences of a non-empty `p`.
pub fn positions_exec(s: &Vec<char>, p: &Vec<char>) -> (r: Vec<usize>)
    requires
        p.len() > 0,
    ensures
        r@.len() == positions(s@, p@).len(),
        forall|k: int| 0 <= k < r@.len() ==> r@[k] as int == positions(s@, p@)[k],
{
    let mut r: Vec<usize> = Vec::new();
    let mut i: usize = 0;
    let ghost all = positions(s@, p@);
    while i <= s.len() && p.len() <= s.len() - i
        invariant
            p.len() > 0,
            i <= s.len(),
            all == positions(s@, p@),
            r@.len() + positions_from(s@, p@, i as int).len() == all.len(),
            forall|k: int| 0 <= k < r@.len() ==> r@[k] as int == all[k],
            forall|k: int|
                0 <= k < positions_from(s@, p@, i as int).len() ==> #[trigger] positions_from(
                    s@,
                    p@,
                    i as int,
                )[k] == all[r@.len() + k],
        decreases s.len() + 1 - i,
    {
        let ghost old_r = r@;
        let ghost rest = positions_from(s@, p@, i as int);
        if match_at_exec(s, i, p) {
            let ghost next = positions_from(s@, p@, i + p.len());
            assert(rest == seq![i as int] + next);
            assert(rest[0] == i as int);
            r.push(i);
            assert forall|k: int| 0 <= k < next.len() implies #[trigger] next[k] == all[r@.len() + k] by {
                assert(rest[k + 1] == next[k]);
            }
            i = i + p.len();
        } else {
            i = i + 1;
        }
    }
    r
}

/// `str::matches(p).count()` for a non-empty `p`.
pub fn count_matches_exec(s: &Vec<char>, p: &Vec<char>) -> (n: usize)
    requires
        p.len() > 0,
    ensures
        n == count_matches(s@, p@),
{
    let ps = positions_exec(s, p);
    ps.len()
}

/// `str::replace(p, r)` for a non-empty `p`.
pub fn replace_all_exec(s: &Vec<char>, p: &Vec<char>, r: &Vec<char>) -> (out: Vec<char>)
    requires
        p.len() > 0,
    ensures
        out@ == replace_all(s@, p@, r@),
{
    let mut out: Vec<char> = Vec::new();
    let mut i: usize = 0;
    while i < s.len()
        invariant
            p.len() > 0,
            i <= s.len(),
            out@ + replace_from(s@, p@, r@, i as int) == replace_all(s@, p@, r@),
        decreases s.len() - i,
    {
        let ghost old_out = out@;
        if p.len() <= s.len() - i && match_at_exec(s, i, p) {
            push_all(&mut out, r);
            assert(replace_from(s@, p@, r@, i as int) == r@ + replace_from(s@, p@, r@, i + p.len()));
            assert(out@ + replace_from(s@, p@, r@, i + p.len()) == old_out + replace_from(
                s@,
                p@,
                r@,
                i as int,
            ));
            i = i + p.len();
        } else {
            out.push(s[i]);
            if p.len() > s.len() - i {
                assert(replace_from(s@, p@, r@, i as int) == s@.subrange(i as int, s.len() as int));
                if i + 1 < s.len() {
                    assert(replace_from(s@, p@, r@, i + 1) == s@.subrange(i + 1, s.len() as int));
                }
                assert(s@.subrange(i as int, s.len() as int) =~= seq![s@[i as int]]
                    + replace_from(s@, p@, r@, i + 1));
            } else {
                assert(replace_from(s@, p@, r@, i as int) == seq![s@[i as int]] + replace_from(
                    s@,
                    p@,
                    r@,
                    i + 1,
                ));
            }
            assert(out@ + replace_from(s@, p@, r@, i + 1) =~= old_out + replace_from(
                s@,
                p@,
                r@,
                i as int,
            ));
            i = i + 1;
        }
    }
    assert(replace_from(s@, p@, r@, i as int) == Seq::<char>::empty());
    assert(out@ =~= out@ + Seq::<char>::empty());
    out
}

/// Unicode `White_Space` test (`char::is_whitespace`).
pub fn is_ws_exec(c: char) -> (b: bool)
    ensures
        b == is_ws(c),
{
    let u = c as u32;
    (0x9 <= u && u <= 0xD) || u == 0x20 || u == 0x85 || u == 0xA0 || u == 0x1680 || (0x2000 <= u
        && u <= 0x200A) || u == 0x2028 || u == 0x2029 || u == 0x202F || u == 0x205F || u == 0x3000
}


/// Bounds `(lo, hi)` such that `s[lo..hi]` is `s` with leading and trailing
/// whitespace removed (`str::trim`).
pub fn trim_bounds(s: &Vec<char>) -> (r: (usize, usize))
    ensures
        r.0 <= r.1 <= s.len(),
        s@.subrange(r.0 as int, r.1 as int) == trim(s@),
        s@.subrange(0, r.1 as int) == trim_end(s@),
{
    let mut hi = s.len();
    assert(s@.subrange(0, s.len() as int) =~= s@);
    while hi > 0 && is_ws_exec(s[hi - 1])
        invariant
            hi <= s.len(),
            trail_ws(s@) == (s.len() - hi) + trail_ws(s@.subrange(0, hi as int)),
        decreases hi,
    {
        assert(s@.subrange(0, hi as int).drop_last() =~= s@.subrange(0, hi - 1));
        hi -= 1;
    }
    assert(trail_ws(s@.subrange(0, hi as int)) == 0);
    let ghost e = s@.subrange(0, hi as int);
    assert(trim_end(s@) =~= e);
    let mut lo: usize = 0;
    while lo < hi && is_ws_exec(s[lo])
        invariant
            lo <= hi <= s.len(),
            e == s@.subrange(0, hi as int),
            lead_ws(e) == lo + lead_ws(s@.subrange(lo as int, hi as int)),
        decreases hi - lo,
    {
        assert(s@.subrange(lo as int, hi as int).drop_first() =~= s@.subrange(lo + 1, hi as int));
        lo += 1;
    }
    assert(lead_ws(s@.subrange(lo as int, hi as int)) == 0);
    assert(trim(s@) =~= s@.subrange(lo as int, hi as int));
    (lo, hi)
}

/// `str::trim` on a character vector.
pub fn trim_exec(s: &Vec<char>) -> (r: Vec<char>)
    ensures
        r@ == trim(s@),
{
    let (lo, hi) = trim_bounds(s);
    slice_of(s, lo, hi)
}

/// `str::trim_end` on a character vector.
pub fn trim_end_exec(s: &Vec<char>) -> (r: Vec<char>)
    ensures
        r@ == trim_end(s@),
{
    let (_lo, hi) = trim_bounds(s);
    slice_of(s, 0, hi)
}

/// `str::lines` on a character vector.
pub fn lines_exec(s: &Vec<char>) -> (r: Vec<Vec<char>>)
    ensures
        views(r@) == lines(s@),
{
    let mut r: Vec<Vec<char>> = Vec::new();
    let mut start: usize = 0;
    let ghost nl = seq!['\n'];
    assert(s@.subrange(0, s.len() as int) =~= s@);
    assert(views(r@) + lines(s@) =~= lines(s@));
    while start < s.len()
        invariant
            start <= s.len(),
            nl == seq!['\n'],
            views(r@) + lines(s@.subrange(start as int, s.len() as int)) == lines(s@),
        decreases s.len() - start,
    {
        let ghost sub = s@.subrange(start as int, s.len() as int);
        let mut j = start;
        while j < s.len() && s[j] != '\n'
            invariant
                start <= j <= s.len(),
                sub == s@.subrange(start as int, s.len() as int),
                nl == seq!['\n'],
                find_from(sub, nl, 0) == find_from(sub, nl, j - start),
            decreases s.len() - j,
        {
            assert(sub[j - start] == s@[j as int]);
            assert(sub.subrange(j - start, j - start + 1) =~= seq![sub[j - start]]);
            assert(!match_at(sub, j - start, nl)) by {
                if match_at(sub, j - start, nl) {
                    assert(sub.subrange(j - start, j - start + 1)[0] == nl[0]);
                }
            }
            j += 1;
        }
        let mut line = slice_of(s, start, j);
        let ghost r_old = views(r@);
        if j < s.len() {
            assert(sub[j - start] == s@[j as int]);
            assert(sub.subrange(j - start, j - start + 1) =~= nl);
            assert(match_at(sub, j - start, nl));
            assert(find_from(sub, nl, j - start) == Some((j - start) as int));
            assert(first_newline(sub) == Some((j - start) as int));
            if line.len() > 0 && line[line.len() - 1] == '\r' {
                line.pop();
            }
            assert(line@ == strip_cr(sub.subrange(0, j - start)));
            assert(sub.subrange(j - start + 1, sub.len() as int) =~= s@.subrange(
                j + 1,
                s.len() as int,
            ));
            r.push(line);
            assert(views(r@) =~= r_old.push(strip_cr(sub.subrange(0, j - start))));
            start = j + 1;
        } else {
            assert(find_from(sub, nl, j - start) is None);
            assert(first_newline(sub) is None);
            assert(sub.len() > 0);
            assert(lines(sub) == seq![sub]);
            assert(line@ =~= sub);
            r.push(line);
            assert(views(r@) =~= r_old.push(sub));
            start = j;
        }
    }
    assert(lines(s@.subrange(start as int, s.len() as int)) =~= Seq::<Seq<char>>::empty());
    assert(views(r@) =~= lines(s@));
    r
}

/// The decimal digit character of `d < 10`.
pub fn digit_exec(d: u128) -> (c: char)
    requires
        d < 10,
    ensures
        c == digit(d as nat),
{
    if d == 0 { '0' }
    else if d == 1 { '1' }
    else if d == 2 { '2' }
    else if d == 3 { '3' }
    else if d == 4 { '4' }
    else if d == 5 { '5' }
    else if d == 6 { '6' }
    else if d == 7 { '7' }
    else if d == 8 { '8' }
    else { '9' }
}

/// Decimal text of an unsigned integer (`u64::to_string`).
pub fn decimal_exec(n: u128) -> (r: Vec<char>)
    ensures
        r@ == decimal(n as nat),
    decreases n,
{
    if n < 10 {
        let mut v: Vec<char> = Vec::new();
        v.push(digit_exec(n));
        assert(v@ =~= seq![digit(n as nat)]);
        v
    } else {
        let mut v = decimal_exec(n / 10);
        v.push(digit_exec(n % 10));
        v
    }
}

/// Decimal text of a signed integer (`i64::to_string`).
pub fn signed_decimal_exec(n: i64) -> (r: Vec<char>)
    ensures
        r@ == signed_decimal(n as int),
{
    if n < 0 {
        let m: u64 = if n == i64::MIN { 9223372036854775808u64 } else { (-n) as u64 };
        let d = decimal_exec(m as u128);
        let mut v: Vec<char> = Vec::new();
        v.push('-');
        push_all(&mut v, &d);
        assert(v@ =~= seq!['-'] + decimal((-n) as nat));
        v
    } else {
        decimal_exec(n as u128)
    }
}

/// Join `parts` with `sep` between consecutive parts.
pub fn join_exec(parts: &Vec<Vec<char>>, sep: &Vec<char>) -> (r: Vec<char>)
    ensures
        r@ == join(views(parts@), sep@),
{
    let mut r: Vec<char> = Vec::new();
    let mut i: usize = 0;
    while i < parts.len()
        invariant
            i <= parts.len(),
            r@ == join(views(parts@).take(i as int), sep@),
        decreases parts.len() - i,
    {
        let ghost pv = views(parts@);
        assert(pv[i as int] == parts@[i as int]@);
        assert(pv.take(i + 1).drop_last() =~= pv.take(i as int));
        if i > 0 {
            push_all(&mut r, sep);
        } else {
            assert(pv.take(0) =~= Seq::<Seq<char>>::empty());
        }
        push_all(&mut r, &parts[i]);
        assert(pv.take(i + 1).last() == pv[i as int]);
        i += 1;
    }
    assert(views(parts@).take(i as int) =~= views(parts@));
    r
}


/// What `str::to_lowercase` makes of `s` (full Unicode lowercase mapping).
pub uninterp spec fn lowercase(s: Seq<char>) -> Seq<char>;

/// Lowercase a string (`str::to_lowercase`).
#[verifier::external_body]
pub(crate) fn to_lowercase(s: &str) -> (r: String)
    ensures
        r@ == lowercase(s@),
{
    s.to_lowercase()
}

/// The UTF-8 width of a character (`char::len_utf8`).
pub fn utf8_width_exec(c: char) -> (r: usize)
    ensures
        r == utf8_width(c),
{
    let u = c as u32;
    if u < 0x80 { 1 } else if u < 0x800 { 2 } else if u < 0x10000 { 3 } else { 4 }
}

/// The longest prefix length `k >= j` whose UTF-8 encoding fits in `max`
/// bytes, scanning up from `j` (the char boundary `floor_char_boundary`
/// finds, counted in characters).
pub open spec fn prefix_within(s: Seq<char>, max: nat, j: nat) -> nat
    decreases s.len() - j,
{
    if j < s.len() && utf8_len(s.take(j + 1 as int)) <= max {
        prefix_within(s, max, j + 1)
    } else {
        j
    }
}

/// `s` cut to at most `max` bytes at a character boundary.
pub open spec fn cut_to_bytes(s: Seq<char>, max: nat) -> Seq<char> {
    s.take(prefix_within(s, max, 0) as int)
}

/// `s` unchanged if it fits in `max` bytes, else cut and followed by `tail`.
pub open spec fn truncated(s: Seq<char>, max: nat, tail: Seq<char>) -> Seq<char> {
    if utf8_len(s) <= max {
        s
    } else {
        cut_to_bytes(s, max) + tail
    }
}

proof fn lemma_utf8_len_take(s: Seq<char>, j: int)
    requires
        0 <= j < s.len(),
    ensures
        utf8_len(s.take(j + 1)) == utf8_len(s.take(j)) + utf8_width(s[j]),
{
    assert(s.take(j + 1).drop_last() =~= s.take(j));
}

/// Number of UTF-8 bytes of `s` (`str::len`), capped at `cap + 1`: exact
/// when at most `cap`.
pub fn utf8_len_upto(s: &Vec<char>, cap: usize) -> (r: usize)
    requires
        cap < usize::MAX - 4,
    ensures
        r <= cap ==> r == utf8_len(s@),
        r > cap ==> utf8_len(s@) > cap,
{
    let mut n: usize = 0;
    let mut j: usize = 0;
    while j < s.len()
        invariant
            j <= s.len(),
            cap < usize::MAX - 4,
            n <= cap,
            n == utf8_len(s@.take(j as int)),
        decreases s.len() - j,
    {
        proof {
            lemma_utf8_len_take(s@, j as int);
        }
        let w = utf8_width_exec(s[j]);
        if n + w > cap {
            proof {
                lemma_utf8_len_prefix_le(s@, j + 1);
            }
            return cap + 1;
        }
        n = n + w;
        j += 1;
    }
    assert(s@.take(j as int) =~= s@);
    n
}

/// The UTF-8 length of a prefix never exceeds that of the whole.
proof fn lemma_utf8_len_prefix_le(s: Seq<char>, k: int)
    requires
        0 <= k <= s.len(),
    ensures
        utf8_len(s.take(k)) <= utf8_len(s),
    decreases s.len() - k,
{
    if k < s.len() {
        lemma_utf8_len_take(s, k);
        lemma_utf8_len_prefix_le(s, k + 1);
    } else {
        assert(s.take(k) =~= s);
    }
}

/// `s` cut to at most `max` bytes at a character boundary, followed by
/// `tail` — or `s` itself when it fits.
pub fn truncate_bytes(s: &Vec<char>, max: usize, tail: &str) -> (r: Vec<char>)
    requires
        max < usize::MAX - 4,
    ensures
        r@ == truncated(s@, max as nat, tail@),
{
    let total = utf8_len_upto(s, max);
    if total <= max {
        return slice_of(s, 0, s.len());
    }
    let mut n: usize = 0;
    let mut j: usize = 0;
    let mut full = false;
    while j < s.len() && !full
        invariant
            j <= s.len(),
            max < usize::MAX - 4,
            n <= max,
            n == utf8_len(s@.take(j as int)),
            prefix_within(s@, max as nat, 0) == prefix_within(s@, max as nat, j as nat),
            full ==> j < s.len() && utf8_len(s@.take(j + 1)) > max,
        decreases s.len() - j, if full { 0int } else { 1int },
    {
        proof {
            lemma_utf8_len_take(s@, j as int);
        }
        let w = utf8_width_exec(s[j]);
        if n + w > max {
            full = true;
        } else {
            n = n + w;
            j += 1;
        }
    }
    assert(prefix_within(s@, max as nat, j as nat) == j);
    let mut r = slice_of(s, 0, j);
    assert(r@ =~= s@.take(j as int));
    push_str(&mut r, tail);
    r
}


/// The byte length of a string slice is the UTF-8 length of its characters.
pub proof fn lemma_str_len(s: &str)
    ensures
        s.spec_bytes().len() == utf8_len(s@),
{
    lemma_encode_len(s@);
}

/// The UTF-8 encoding has `utf8_len` bytes.
pub proof fn lemma_encode_len(s: Seq<char>)
    ensures
        vstd::utf8::encode_utf8(s).len() == utf8_len(s),
    decreases s.len(),
{
    if s.len() > 0 {
        lemma_encode_len(s.drop_first());
        lemma_utf8_len_first(s);
        vstd::utf8::char_is_scalar(s[0]);
        let u = s[0] as u32;
        assert(vstd::utf8::is_scalar(u));
        assert(vstd::utf8::encode_scalar(u).len() == utf8_width(s[0]));
        assert(vstd::utf8::encode_utf8(s) == vstd::utf8::encode_scalar(u) + vstd::utf8::encode_utf8(s.drop_first()));
    }
}

/// `utf8_len` also splits at the first character.
pub proof fn lemma_utf8_len_first(s: Seq<char>)
    requires
        s.len() > 0,
    ensures
        utf8_len(s) == utf8_width(s[0]) + utf8_len(s.drop_first()),
    decreases s.len(),
{
    if s.len() == 1 {
        assert(s.drop_last().len() == 0);
        assert(s.drop_first().len() == 0);
        assert(utf8_len(s.drop_last()) == 0);
        assert(utf8_len(s.drop_first()) == 0);
        assert(s.last() == s[0]);
    } else {
        lemma_utf8_len_first(s.drop_last());
        assert(s.drop_last().drop_first() =~= s.drop_first().drop_last());
        assert(s.drop_first().last() == s.last());
        assert(s.drop_last()[0] == s[0]);
    }
}


/// The UTF-8 length of `s` (`str::len`).
pub fn utf8_len_exec(s: &Vec<char>) -> (r: usize)
    requires
        utf8_len(s@) <= usize::MAX,
    ensures
        r == utf8_len(s@),
{
    let mut n: usize = 0;
    let mut j: usize = 0;
    while j < s.len()
        invariant
            j <= s.len(),
            utf8_len(s@) <= usize::MAX,
            n == utf8_len(s@.take(j as int)),
        decreases s.len() - j,
    {
        proof {
            lemma_utf8_len_take(s@, j as int);
            lemma_utf8_len_prefix_le(s@, j + 1);
        }
        n = n + utf8_width_exec(s[j]);
        j += 1;
    }
    assert(s@.take(j as int) =~= s@);
    n
}


proof fn lemma_newline_from(s: Seq<char>, i: int, k: int)
    requires
        0 <= i <= k <= s.len(),
        k < s.len() ==> s[k] == '\n',
        forall|j: int| i <= j < k ==> s[j] != '\n',
    ensures
        find_from(s, seq!['\n'], i) == (if k < s.len() { Some(k) } else { None::<int> }),
    decreases k - i,
{
    let nl = seq!['\n'];
    if i < k {
        assert(s.subrange(i, i + 1) =~= seq![s[i]]);
        assert(!match_at(s, i, nl)) by {
            if match_at(s, i, nl) {
                assert(s.subrange(i, i + 1)[0] == nl[0]);
            }
        }
        lemma_newline_from(s, i + 1, k);
    } else if k < s.len() {
        assert(s.subrange(k, k + 1) =~= nl);
    }
}

/// The first `'\n'` of `s` is at `k` when `s[k]` is one and none comes before.
pub proof fn lemma_first_newline_is(s: Seq<char>, k: int)
    requires
        0 <= k < s.len(),
        s[k] == '\n',
        forall|j: int| 0 <= j < k ==> s[j] != '\n',
    ensures
        first_newline(s) == Some(k),
{
    lemma_newline_from(s, 0, k);
}

/// A text without `'\n'` has no first newline.
pub proof fn lemma_first_newline_none(s: Seq<char>)
    requires
        forall|j: int| 0 <= j < s.len() ==> s[j] != '\n',
    ensures
        first_newline(s) is None,
{
    lemma_newline_from(s, 0, s.len() as int);
}
} // verus!
