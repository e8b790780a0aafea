//! Lexical path handling and the workspace path-jail.
//!
//! A path is modelled as a flag (absolute or not) plus its components, the
//! `/`-separated parts other than empty ones and `.` (which `Path::components`
//! skips); `..` is kept as a component until normalization resolves it.

use vstd::prelude::*;
use crate::text::{
    chars_of, find, find_from, join, join_exec, match_at, push_all, push_str, slice_of, string_of,
    views, chars_eq,
};

verus! {

/// `p` split at every `'/'` (`str::split('/')`).
pub open spec fn split_slash(p: Seq<char>) -> Seq<Seq<char>>
    decreases p.len(),
{
    if let Some(k) = find(p, seq!['/']) {
        if 0 <= k < p.len() {
            seq![p.subrange(0, k)] + split_slash(p.subrange(k + 1, p.len() as int))
        } else {
            seq![p]
        }
    } else {
        seq![p]
    }
}

/// A part that names a component: not empty and not `.`.
pub open spec fn keeps(seg: Seq<char>) -> bool {
    seg.len() > 0 && seg != seq!['.']
}

/// The parts of `ss` that name components, in order.
pub open spec fn kept(ss: Seq<Seq<char>>) -> Seq<Seq<char>>
    decreases ss.len(),
{
    if ss.len() == 0 {
        Seq::empty()
    } else if keeps(ss[0]) {
        seq![ss[0]] + kept(ss.drop_first())
    } else {
        kept(ss.drop_first())
    }
}

/// The components of a path, `..` included.
pub open spec fn segments(p: Seq<char>) -> Seq<Seq<char>> {
    kept(split_slash(p))
}

pub open spec fn is_absolute(p: Seq<char>) -> bool {
    p.len() > 0 && p[0] == '/'
}

pub open spec fn dotdot() -> Seq<char> {
    seq!['.', '.']
}

/// Resolve components onto `acc`: `..` removes the last one (if any, as
/// `PathBuf::pop` does), anything else is appended.
pub open spec fn normalize_segs(acc: Seq<Seq<char>>, segs: Seq<Seq<char>>) -> Seq<Seq<char>>
    decreases segs.len(),
{
    if segs.len() == 0 {
        acc
    } else {
        let next = if segs[0] == dotdot() {
            if acc.len() > 0 {
                acc.drop_last()
            } else {
                acc
            }
        } else {
            acc.push(segs[0])
        };
        normalize_segs(next, segs.drop_first())
    }
}

/// The normalized components of `p`.
pub open spec fn normalized(p: Seq<char>) -> Seq<Seq<char>> {
    normalize_segs(Seq::empty(), segments(p))
}

/// The components of `p` resolved against the workspace `ws` (`ws.join(p)`),
/// then normalized.
pub open spec fn joined_normalized(ws: Seq<char>, p: Seq<char>) -> Seq<Seq<char>> {
    if is_absolute(p) {
        normalized(p)
    } else {
        normalize_segs(Seq::empty(), segments(ws) + segments(p))
    }
}

pub open spec fn joined_absolute(ws: Seq<char>, p: Seq<char>) -> bool {
    is_absolute(p) || is_absolute(ws)
}

/// `Path::starts_with` on the model: same root-ness (unless the base has no
/// components at all) and the base's components come first.
pub open spec fn below(base_abs: bool, base: Seq<Seq<char>>, abs: bool, segs: Seq<Seq<char>>) -> bool {
    if base_abs {
        abs && base.len() <= segs.len() && segs.subrange(0, base.len() as int) == base
    } else if base.len() == 0 {
        true
    } else {
        !abs && base.len() <= segs.len() && segs.subrange(0, base.len() as int) == base
    }
}

/// The text of a path from its model.
pub open spec fn render(abs: bool, segs: Seq<Seq<char>>) -> Seq<char> {
    if abs {
        seq!['/'] + join(segs, seq!['/'])
    } else {
        join(segs, seq!['/'])
    }
}

/// Whether the jail admits `p` for the workspace `ws`.
pub open spec fn jail_admits(ws: Seq<char>, p: Seq<char>) -> bool {
    below(is_absolute(ws), normalized(ws), joined_absolute(ws, p), joined_normalized(ws, p))
}

/// The path the jail hands out for `p`.
pub open spec fn jailed_path(ws: Seq<char>, p: Seq<char>) -> Seq<char> {
    render(joined_absolute(ws, p), joined_normalized(ws, p))
}

/// A path that the jail refused.
#[derive(Debug, PartialEq, Eq)]
pub struct EscapeError {
    pub path: String,
    pub workspace: String,
}

pub open spec fn escape_text(e: EscapeError) -> Seq<char> {
    "path '"@ + e.path@ + "' escapes the workspace ("@ + e.workspace@ + ")"@
}

impl EscapeError {
    /// The explanation shown to the model.
    pub fn message(&self) -> (r: String)
        ensures
            r@ == escape_text(*self),
    {
        let mut v: Vec<char> = Vec::new();
        push_str(&mut v, "path '");
        push_str(&mut v, self.path.as_str());
        push_str(&mut v, "' escapes the workspace (");
        push_str(&mut v, self.workspace.as_str());
        push_str(&mut v, ")");
        string_of(&v)
    }
}

/// The components of a path.
pub fn segments_exec(p: &Vec<char>) -> (r: Vec<Vec<char>>)
    ensures
        views(r@) == segments(p@),
{
    let mut r: Vec<Vec<char>> = Vec::new();
    let mut start: usize = 0;
    let ghost sl = seq!['/'];
    assert(p@.subrange(0, p.len() as int) =~= p@);
    assert(views(r@) + segments(p@) =~= segments(p@));
    while start < p.len()
        invariant
            start <= p.len(),
            sl == seq!['/'],
            views(r@) + kept(split_slash(p@.subrange(start as int, p.len() as int))) == segments(
                p@,
            ),
        decreases p.len() - start,
    {
        let ghost sub = p@.subrange(start as int, p.len() as int);
        let mut j = start;
        while j < p.len() && p[j] != '/'
            invariant
                start <= j <= p.len(),
                sub == p@.subrange(start as int, p.len() as int),
                sl == seq!['/'],
                find_from(sub, sl, 0) == find_from(sub, sl, j - start),
            decreases p.len() - j,
        {
            assert(sub[j - start] == p@[j as int]);
            assert(sub.subrange(j - start, j - start + 1) =~= seq![sub[j - start]]);
            assert(!match_at(sub, j - start, sl)) by {
                if match_at(sub, j - start, sl) {
                    assert(sub.subrange(j - start, j - start + 1)[0] == sl[0]);
                }
            }
            j += 1;
        }
        let seg = slice_of(p, start, j);
        let ghost r_old = views(r@);
        let ghost parts = split_slash(sub);
        let keep = seg.len() > 0 && !(seg.len() == 1 && seg[0] == '.');
        assert(keep == keeps(seg@)) by {
            if seg@.len() == 1 && seg@ == seq!['.'] {
                assert(seg@[0] == '.');
            }
            if seg@.len() == 1 && seg@[0] == '.' {
                assert(seg@ =~= seq!['.']);
            }
        }
        if j < p.len() {
            assert(sub[j - start] == p@[j as int]);
            assert(sub.subrange(j - start, j - start + 1) =~= sl);
            assert(match_at(sub, j - start, sl));
            assert(find(sub, sl) == Some((j - start) as int));
            assert(sub.subrange(j - start + 1, sub.len() as int) =~= p@.subrange(
                j + 1,
                p.len() as int,
            ));
            assert(seg@ =~= sub.subrange(0, j - start));
            assert(parts == seq![seg@] + split_slash(p@.subrange(j + 1, p.len() as int)));
            assert(parts.drop_first() =~= split_slash(p@.subrange(j + 1, p.len() as int)));
            let ghost tail = kept(split_slash(p@.subrange(j + 1, p.len() as int)));
            if keep {
                assert(kept(parts) == seq![seg@] + tail);
                r.push(seg);
                assert(views(r@) =~= r_old.push(seg@));
                assert(views(r@) + tail =~= r_old + kept(parts));
            } else {
                assert(kept(parts) == tail);
            }
            start = j + 1;
        } else {
            assert(find_from(sub, sl, j - start) is None);
            assert(parts == seq![sub]);
            assert(seg@ =~= sub);
            assert(parts.drop_first() =~= Seq::<Seq<char>>::empty());
            if keep {
                assert(kept(parts) == seq![seg@] + kept(parts.drop_first()));
                r.push(seg);
                assert(views(r@) =~= r_old.push(seg@));
            } else {
                assert(kept(parts) == kept(parts.drop_first()));
            }
            start = j;
            assert(p@.subrange(start as int, p.len() as int) =~= Seq::<char>::empty());
            proof { lemma_kept_split_empty(); }
        }
    }
    assert(p@.subrange(start as int, p.len() as int) =~= Seq::<char>::empty());
    proof { lemma_kept_split_empty(); }
    assert(views(r@) =~= segments(p@));
    r
}

/// An empty path has no components.
pub proof fn lemma_kept_split_empty()
    ensures
        split_slash(Seq::<char>::empty()) == seq![Seq::<char>::empty()],
        kept(split_slash(Seq::<char>::empty())) == Seq::<Seq<char>>::empty(),
{
    let e = Seq::<char>::empty();
    assert(find_from(e, seq!['/'], 0) is None);
    assert(find(e, seq!['/']) is None);
    assert(split_slash(e) == seq![e]);
    assert(seq![e].drop_first() =~= Seq::<Seq<char>>::empty());
    assert(!keeps(seq![e][0]));
    assert(kept(seq![e]) == kept(seq![e].drop_first()));
}

/// Resolve `segs` onto `acc` (see [`normalize_segs`]).
pub fn normalize_exec(acc: Vec<Vec<char>>, segs: &Vec<Vec<char>>) -> (r: Vec<Vec<char>>)
    ensures
        views(r@) == normalize_segs(views(acc@), views(segs@)),
{
    let mut out = acc;
    let mut i: usize = 0;
    let dd = chars_of("..");
    assert(dd@ == dotdot()) by {
        reveal_strlit("..");
    }
    assert(views(segs@).subrange(0, segs.len() as int) =~= views(segs@));
    while i < segs.len()
        invariant
            i <= segs.len(),
            dd@ == dotdot(),
            normalize_segs(views(out@), views(segs@).subrange(i as int, segs.len() as int))
                == normalize_segs(views(acc@), views(segs@)),
        decreases segs.len() - i,
    {
        let ghost rest = views(segs@).subrange(i as int, segs.len() as int);
        let ghost before = views(out@);
        assert(rest[0] == segs@[i as int]@);
        assert(rest.drop_first() =~= views(segs@).subrange(i + 1, segs.len() as int));
        if chars_eq(&segs[i], &dd) {
            if out.len() > 0 {
                out.pop();
                assert(views(out@) =~= before.drop_last());
            }
        } else {
            let s = slice_of(&segs[i], 0, segs[i].len());
            assert(s@ =~= segs@[i as int]@);
            out.push(s);
            assert(views(out@) =~= before.push(segs@[i as int]@));
        }
        i += 1;
    }
    assert(views(segs@).subrange(segs.len() as int, segs.len() as int) =~= Seq::<Seq<char>>::empty());
    assert(views(segs@).subrange(0, segs.len() as int) =~= views(segs@));
    out
}

/// Whether `base` is a leading part of `segs`.
fn prefix_exec(base: &Vec<Vec<char>>, segs: &Vec<Vec<char>>) -> (r: bool)
    ensures
        r == (base.len() <= segs.len() && views(segs@).subrange(0, base.len() as int) == views(
            base@,
        )),
{
    if base.len() > segs.len() {
        return false;
    }
    let mut i: usize = 0;
    while i < base.len()
        invariant
            i <= base.len() <= segs.len(),
            forall|k: int| 0 <= k < i ==> views(segs@)[k] == views(base@)[k],
        decreases base.len() - i,
    {
        if !chars_eq(&segs[i], &base[i]) {
            assert(views(segs@).subrange(0, base.len() as int)[i as int] != views(base@)[i as int]);
            return false;
        }
        i += 1;
    }
    assert(views(segs@).subrange(0, base.len() as int) =~= views(base@));
    true
}

fn is_absolute_exec(p: &Vec<char>) -> (r: bool)
    ensures
        r == is_absolute(p@),
{
    p.len() > 0 && p[0] == '/'
}

fn render_exec(abs: bool, segs: &Vec<Vec<char>>) -> (r: Vec<char>)
    ensures
        r@ == render(abs, views(segs@)),
{
    let sep = chars_of("/");
    assert(sep@ == seq!['/']) by {
        reveal_strlit("/");
    }
    let body = join_exec(segs, &sep);
    if abs {
        let mut r: Vec<char> = Vec::new();
        r.push('/');
        push_all(&mut r, &body);
        assert(r@ =~= seq!['/'] + body@);
        r
    } else {
        body
    }
}

/// Resolve `p` against the workspace `ws` and make sure it does not escape it
/// (lexically): the normalized result must lie below the normalized workspace.
pub fn jail(ws: &str, p: &str) -> (r: Result<String, EscapeError>)
    ensures
        jail_admits(ws@, p@) ==> (r matches Ok(path) && path@ == jailed_path(ws@, p@)),
        !jail_admits(ws@, p@) ==> (r matches Err(e) && e.path@ == p@ && e.workspace@ == ws@),
{
    let wc = chars_of(ws);
    let pc = chars_of(p);
    let ws_segs = segments_exec(&wc);
    let p_segs = segments_exec(&pc);
    let p_abs = is_absolute_exec(&pc);
    let ws_abs = is_absolute_exec(&wc);
    let norm = if p_abs {
        let e: Vec<Vec<char>> = Vec::new();
        assert(views(e@) =~= Seq::<Seq<char>>::empty());
        normalize_exec(e, &p_segs)
    } else {
        let mut all = segments_exec(&wc);
        let mut k: usize = 0;
        let ghost base = views(all@);
        while k < p_segs.len()
            invariant
                k <= p_segs.len(),
                views(all@) == base + views(p_segs@).take(k as int),
            decreases p_segs.len() - k,
        {
            let s = slice_of(&p_segs[k], 0, p_segs[k].len());
            assert(views(p_segs@)[k as int] == p_segs@[k as int]@);
            let ghost old_all = views(all@);
            all.push(s);
            assert(views(all@) =~= old_all.push(s@));
            assert(views(p_segs@).take(k + 1) =~= views(p_segs@).take(k as int).push(p_segs@[k as int]@));
            assert(s@ =~= p_segs@[k as int]@);
            assert(views(all@) =~= base + views(p_segs@).take(k + 1));
            k += 1;
        }
        assert(views(p_segs@).take(k as int) =~= views(p_segs@));
        let e: Vec<Vec<char>> = Vec::new();
        assert(views(e@) =~= Seq::<Seq<char>>::empty());
        normalize_exec(e, &all)
    };
    let e: Vec<Vec<char>> = Vec::new();
    assert(views(e@) =~= Seq::<Seq<char>>::empty());
    let ws_norm = normalize_exec(e, &ws_segs);
    let abs = p_abs || ws_abs;
    let admitted = if ws_abs {
        abs && prefix_exec(&ws_norm, &norm)
    } else if ws_norm.len() == 0 {
        true
    } else {
        !abs && prefix_exec(&ws_norm, &norm)
    };
    if admitted {
        let out = render_exec(abs, &norm);
        Ok(string_of(&out))
    } else {
        Err(EscapeError { path: string_of(&pc), workspace: string_of(&wc) })
    }
}


/// A component that is a real name: not empty, not `.` and not `..`.
pub open spec fn plain_component(seg: Seq<char>) -> bool {
    keeps(seg) && seg != dotdot()
}

/// Every component kept from a split is non-empty and not `.`.
pub proof fn lemma_kept_keeps(ss: Seq<Seq<char>>)
    ensures
        forall|i: int| 0 <= i < kept(ss).len() ==> keeps(#[trigger] kept(ss)[i]),
    decreases ss.len(),
{
    if ss.len() > 0 {
        lemma_kept_keeps(ss.drop_first());
        if keeps(ss[0]) {
            let t = kept(ss.drop_first());
            assert(kept(ss) == seq![ss[0]] + t);
            assert forall|i: int| 0 <= i < kept(ss).len() implies keeps(#[trigger] kept(ss)[i]) by {
                if i > 0 {
                    assert(kept(ss)[i] == t[i - 1]);
                }
            }
        }
    }
}

/// Normalization only ever keeps plain components.
pub proof fn lemma_normalize_plain(acc: Seq<Seq<char>>, segs: Seq<Seq<char>>)
    requires
        forall|i: int| 0 <= i < acc.len() ==> plain_component(#[trigger] acc[i]),
        forall|i: int| 0 <= i < segs.len() ==> keeps(#[trigger] segs[i]),
    ensures
        forall|i: int|
            0 <= i < normalize_segs(acc, segs).len() ==> plain_component(
                #[trigger] normalize_segs(acc, segs)[i],
            ),
    decreases segs.len(),
{
    if segs.len() > 0 {
        let next = if segs[0] == dotdot() {
            if acc.len() > 0 {
                acc.drop_last()
            } else {
                acc
            }
        } else {
            acc.push(segs[0])
        };
        assert forall|i: int| 0 <= i < next.len() implies plain_component(#[trigger] next[i]) by {
            if segs[0] != dotdot() && i == acc.len() {
                assert(keeps(segs[0]));
            } else {
                assert(next[i] == acc[i]);
            }
        }
        assert forall|i: int| 0 <= i < segs.drop_first().len() implies keeps(
            #[trigger] segs.drop_first()[i],
        ) by {
            assert(segs.drop_first()[i] == segs[i + 1]);
        }
        lemma_normalize_plain(next, segs.drop_first());
        assert(normalize_segs(acc, segs) == normalize_segs(next, segs.drop_first()));
    }
}

/// Law: a path the jail admits lies below the (normalized) workspace, and
/// every one of its components is a plain name — no `..` can survive to
/// climb back out, no `.` and no empty component.
pub proof fn law_jail_contained(ws: Seq<char>, p: Seq<char>)
    requires
        jail_admits(ws, p),
    ensures
        below(is_absolute(ws), normalized(ws), joined_absolute(ws, p), joined_normalized(ws, p)),
        forall|i: int|
            0 <= i < joined_normalized(ws, p).len() ==> plain_component(
                #[trigger] joined_normalized(ws, p)[i],
            ),
{
    lemma_kept_keeps(split_slash(p));
    lemma_kept_keeps(split_slash(ws));
    let e = Seq::<Seq<char>>::empty();
    if is_absolute(p) {
        lemma_normalize_plain(e, segments(p));
    } else {
        let all = segments(ws) + segments(p);
        assert forall|i: int| 0 <= i < all.len() implies keeps(#[trigger] all[i]) by {
            if i < segments(ws).len() {
                assert(all[i] == segments(ws)[i]);
            } else {
                assert(all[i] == segments(p)[i - segments(ws).len()]);
            }
        }
        lemma_normalize_plain(e, all);
    }
}

} // verus!
