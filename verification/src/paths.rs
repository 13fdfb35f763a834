//! Archive path normalisation and the lookup rules built on it.

use vstd::prelude::*;
use crate::text::{ascii_lower, chars_of, lower_seq, string_from_chars, to_ascii_lower};

verus! {

/// A path separator: forward slash or backslash.
pub open spec fn is_sep(c: char) -> bool {
    c == '/' || c == '\\'
}

/// The pieces of `s` between separators, empty pieces included (as `str::split` gives them).
pub open spec fn split_at_seps(s: Seq<char>) -> Seq<Seq<char>>
    decreases s.len(),
{
    if s.len() == 0 {
        seq![Seq::<char>::empty()]
    } else {
        let rest = split_at_seps(s.drop_last());
        if is_sep(s.last()) {
            rest.push(Seq::<char>::empty())
        } else {
            rest.update(rest.len() - 1, rest.last().push(s.last()))
        }
    }
}

/// One step of resolving a segment list: empty and `.` segments vanish,
/// `..` drops the previous kept segment (if any), anything else is kept.
pub open spec fn resolve_step(kept: Seq<Seq<char>>, seg: Seq<char>) -> Seq<Seq<char>> {
    if seg.len() == 0 || seg == seq!['.'] {
        kept
    } else if seg == seq!['.', '.'] {
        if kept.len() == 0 {
            kept
        } else {
            kept.drop_last()
        }
    } else {
        kept.push(seg)
    }
}

/// Resolves a whole segment list from left to right.
pub open spec fn resolve_segments(segs: Seq<Seq<char>>) -> Seq<Seq<char>>
    decreases segs.len(),
{
    if segs.len() == 0 {
        Seq::empty()
    } else {
        resolve_step(resolve_segments(segs.drop_last()), segs.last())
    }
}

/// Joins segments with a backslash between consecutive ones.
pub open spec fn join_backslash(segs: Seq<Seq<char>>) -> Seq<char>
    decreases segs.len(),
{
    if segs.len() == 0 {
        Seq::empty()
    } else if segs.len() == 1 {
        segs[0]
    } else {
        join_backslash(segs.drop_last()) + seq!['\\'] + segs.last()
    }
}

/// The canonical form of an archive path: separators unified to backslashes,
/// empty and `.` segments dropped, `..` resolved, ASCII letters lower-cased.
pub open spec fn normalized(path: Seq<char>) -> Seq<char> {
    lower_seq(join_backslash(resolve_segments(split_at_seps(path))))
}

/// Views of a vector of character vectors.
pub open spec fn seg_views(v: Seq<Vec<char>>) -> Seq<Seq<char>> {
    v.map_values(|x: Vec<char>| x@)
}

fn is_dot(seg: &Vec<char>) -> (r: bool)
    ensures
        r == (seg@ == seq!['.']),
{
    if seg.len() == 1 && seg[0] == '.' {
        assert(seg@ =~= seq!['.']);
        true
    } else {
        false
    }
}

fn is_dot_dot(seg: &Vec<char>) -> (r: bool)
    ensures
        r == (seg@ == seq!['.', '.']),
{
    if seg.len() == 2 && seg[0] == '.' && seg[1] == '.' {
        assert(seg@ =~= seq!['.', '.']);
        true
    } else {
        false
    }
}

/// Applies one resolution step to the kept segments.
fn push_segment(kept: &mut Vec<Vec<char>>, seg: Vec<char>)
    ensures
        seg_views(final(kept)@) == resolve_step(seg_views(old(kept)@), seg@),
{
    let ghost before = seg_views(kept@);
    if seg.len() == 0 || is_dot(&seg) {
    } else if is_dot_dot(&seg) {
        if kept.len() > 0 {
            kept.pop();
            assert(seg_views(kept@) =~= before.drop_last());
        }
    } else {
        let ghost s = seg@;
        kept.push(seg);
        assert(seg_views(kept@) =~= before.push(s));
    }
}

/// Joins segments with backslashes and lower-cases ASCII letters.
fn join_lower(segs: &Vec<Vec<char>>) -> (r: Vec<char>)
    ensures
        r@ == lower_seq(join_backslash(seg_views(segs@))),
{
    let mut r: Vec<char> = Vec::new();
    let mut i: usize = 0;
    while i < segs.len()
        invariant
            i <= segs.len(),
            r@ == lower_seq(join_backslash(seg_views(segs@).take(i as int))),
        decreases segs.len() - i,
    {
        let ghost prev = seg_views(segs@).take(i as int);
        let ghost next = seg_views(segs@).take(i + 1);
        assert(next.drop_last() =~= prev);
        if i > 0 {
            r.push('\\');
        }
        let seg = &segs[i];
        let mut j: usize = 0;
        while j < seg.len()
            invariant
                i < segs.len(),
                seg == &segs@[i as int],
                j <= seg.len(),
                r@ == lower_seq(join_backslash(prev)) + (if i > 0 { seq!['\\'] } else { Seq::<char>::empty() })
                    + lower_seq(seg@.take(j as int)),
            decreases seg.len() - j,
        {
            r.push(to_ascii_lower(seg[j]));
            assert(lower_seq(seg@.take(j + 1)) =~= lower_seq(seg@.take(j as int)).push(ascii_lower(seg@[j as int])));
            j += 1;
        }
        assert(seg@.take(seg.len() as int) =~= seg@);
        assert(next.last() == seg@);
        if i == 0 {
            assert(next.len() == 1);
            assert(join_backslash(next) == next[0]);
        } else {
            assert(join_backslash(next) == join_backslash(prev) + seq!['\\'] + seg@);
            assert(lower_seq(join_backslash(prev) + seq!['\\'] + seg@) =~= lower_seq(join_backslash(prev)) + seq!['\\'] + lower_seq(seg@));
        }
        i += 1;
    }
    assert(seg_views(segs@).take(segs.len() as int) =~= seg_views(segs@));
    r
}

/// Splits a character sequence at separators and resolves the segments.
pub fn resolved_segments(chars: &Vec<char>) -> (kept: Vec<Vec<char>>)
    ensures
        seg_views(kept@) == resolve_segments(split_at_seps(chars@)),
{
    let mut kept: Vec<Vec<char>> = Vec::new();
    let mut current: Vec<char> = Vec::new();
    let ghost mut done: Seq<Seq<char>> = Seq::empty();
    let mut i: usize = 0;
    assert(chars@.take(0) =~= Seq::<char>::empty());
    while i < chars.len()
        invariant
            i <= chars.len(),
            split_at_seps(chars@.take(i as int)) == done.push(current@),
            seg_views(kept@) == resolve_segments(done),
        decreases chars.len() - i,
    {
        let c = chars[i];
        assert(chars@.take(i + 1).drop_last() =~= chars@.take(i as int));
        if c == '/' || c == '\\' {
            let mut seg: Vec<char> = Vec::new();
            std::mem::swap(&mut seg, &mut current);
            proof {
                assert(resolve_segments(done.push(seg@)) == resolve_step(resolve_segments(done), seg@)) by {
                    assert(done.push(seg@).drop_last() =~= done);
                }
            }
            push_segment(&mut kept, seg);
            proof {
                done = done.push(seg@);
                assert(split_at_seps(chars@.take(i + 1)) =~= done.push(current@));
            }
        } else {
            let ghost old_cur = current@;
            current.push(c);
            assert(split_at_seps(chars@.take(i + 1)) =~= done.push(current@)) by {
                let rest = split_at_seps(chars@.take(i as int));
                assert(rest == done.push(old_cur));
                assert(rest.update(rest.len() - 1, rest.last().push(c)) =~= done.push(old_cur.push(c)));
            }
        }
        i += 1;
    }
    let ghost last = current@;
    assert(resolve_segments(done.push(last)) == resolve_step(resolve_segments(done), last)) by {
        assert(done.push(last).drop_last() =~= done);
    }
    push_segment(&mut kept, current);
    assert(chars@.take(chars.len() as int) =~= chars@);
    kept
}

/// The canonical form of a character sequence (see `normalized`).
pub fn normalize_chars(chars: &Vec<char>) -> (r: Vec<char>)
    ensures
        r@ == normalized(chars@),
{
    let kept = resolved_segments(chars);
    join_lower(&kept)
}

/// Joins the first `k` segments with backslashes, keeping their case.
pub fn join_prefix(segs: &Vec<Vec<char>>, k: usize) -> (r: Vec<char>)
    requires
        k <= segs.len(),
    ensures
        r@ == join_backslash(seg_views(segs@).take(k as int)),
{
    let mut r: Vec<char> = Vec::new();
    let mut i: usize = 0;
    while i < k
        invariant
            k <= segs.len(),
            i <= k,
            r@ == join_backslash(seg_views(segs@).take(i as int)),
        decreases k - i,
    {
        let ghost prev = seg_views(segs@).take(i as int);
        let ghost next = seg_views(segs@).take(i + 1);
        assert(next.drop_last() =~= prev);
        if i > 0 {
            r.push('\\');
        }
        let seg = &segs[i];
        let mut j: usize = 0;
        while j < seg.len()
            invariant
                i < segs.len(),
                seg == &segs@[i as int],
                j <= seg.len(),
                r@ == join_backslash(prev) + (if i > 0 { seq!['\\'] } else { Seq::<char>::empty() })
                    + seg@.take(j as int),
            decreases seg.len() - j,
        {
            r.push(seg[j]);
            assert(seg@.take(j + 1) =~= seg@.take(j as int).push(seg@[j as int]));
            j += 1;
        }
        assert(seg@.take(seg.len() as int) =~= seg@);
        assert(next.last() == seg@);
        if i == 0 {
            assert(next.len() == 1);
            assert(join_backslash(next) == next[0]);
            assert(r@ =~= seg@);
        } else {
            assert(join_backslash(next) == join_backslash(prev) + seq!['\\'] + seg@);
        }
        i += 1;
    }
    r
}

/// Converts an archive path to the viewer's canonical backslash lower-case form.
pub fn normalize_path(path: &str) -> (r: String)
    ensures
        r@ == normalized(path@),
{
    let chars = chars_of(path);
    let out = normalize_chars(&chars);
    string_from_chars(&out)
}

/// A segment without separators.
pub open spec fn sep_free(seg: Seq<char>) -> bool {
    forall|i: int| 0 <= i < seg.len() ==> !is_sep(#[trigger] seg[i])
}

/// A segment that survives resolution: not empty, without separators, and
/// neither `.` nor `..`.
pub open spec fn clean_segment(seg: Seq<char>) -> bool {
    &&& seg.len() > 0
    &&& seg != seq!['.']
    &&& seg != seq!['.', '.']
    &&& sep_free(seg)
}

proof fn lemma_split_pieces_sep_free(s: Seq<char>)
    ensures
        split_at_seps(s).len() >= 1,
        forall|k: int| 0 <= k < split_at_seps(s).len() ==> sep_free(#[trigger] split_at_seps(s)[k]),
    decreases s.len(),
{
    if s.len() > 0 {
        lemma_split_pieces_sep_free(s.drop_last());
        let rest = split_at_seps(s.drop_last());
        if !is_sep(s.last()) {
            let grown = rest.last().push(s.last());
            assert(sep_free(grown)) by {
                assert(sep_free(rest[rest.len() - 1]));
                assert forall|i: int| 0 <= i < grown.len() implies !is_sep(#[trigger] grown[i]) by {
                    if i < rest.last().len() {
                        assert(grown[i] == rest[rest.len() - 1][i]);
                    }
                }
            }
            assert forall|k: int| 0 <= k < split_at_seps(s).len() implies sep_free(#[trigger] split_at_seps(s)[k]) by {
                if k < rest.len() - 1 {
                    assert(split_at_seps(s)[k] == rest[k]);
                }
            }
        } else {
            assert forall|k: int| 0 <= k < split_at_seps(s).len() implies sep_free(#[trigger] split_at_seps(s)[k]) by {
                if k < rest.len() {
                    assert(split_at_seps(s)[k] == rest[k]);
                }
            }
        }
    }
}

proof fn lemma_resolve_clean(segs: Seq<Seq<char>>)
    requires
        forall|k: int| 0 <= k < segs.len() ==> sep_free(#[trigger] segs[k]),
    ensures
        forall|k: int| 0 <= k < resolve_segments(segs).len() ==> clean_segment(#[trigger] resolve_segments(segs)[k]),
    decreases segs.len(),
{
    if segs.len() > 0 {
        let front = segs.drop_last();
        assert forall|k: int| 0 <= k < front.len() implies sep_free(#[trigger] front[k]) by {
            assert(front[k] == segs[k]);
        }
        lemma_resolve_clean(front);
        let kept = resolve_segments(front);
        let seg = segs.last();
        assert(sep_free(segs[segs.len() - 1]));
        let next = resolve_segments(segs);
        assert forall|k: int| 0 <= k < next.len() implies clean_segment(#[trigger] next[k]) by {
            if seg.len() == 0 || seg == seq!['.'] {
                assert(next == kept);
            } else if seg == seq!['.', '.'] {
                if kept.len() > 0 {
                    assert(next[k] == kept[k]);
                }
            } else if k < kept.len() {
                assert(next[k] == kept[k]);
            }
        }
    }
}

proof fn lemma_resolve_identity(segs: Seq<Seq<char>>)
    requires
        forall|k: int| 0 <= k < segs.len() ==> clean_segment(#[trigger] segs[k]),
    ensures
        resolve_segments(segs) == segs,
    decreases segs.len(),
{
    if segs.len() > 0 {
        let front = segs.drop_last();
        assert forall|k: int| 0 <= k < front.len() implies clean_segment(#[trigger] front[k]) by {
            assert(front[k] == segs[k]);
        }
        lemma_resolve_identity(front);
        assert(clean_segment(segs[segs.len() - 1]));
        assert(front.push(segs.last()) =~= segs);
    }
}

proof fn lemma_split_append(x: Seq<char>, y: Seq<char>)
    requires
        sep_free(y),
    ensures
        split_at_seps(x + y) == split_at_seps(x).update(
            split_at_seps(x).len() - 1,
            split_at_seps(x).last() + y,
        ),
    decreases y.len(),
{
    lemma_split_pieces_sep_free(x);
    let sx = split_at_seps(x);
    if y.len() == 0 {
        assert(x + y =~= x);
        assert(sx.last() + y =~= sx.last());
        assert(sx.update(sx.len() - 1, sx.last() + y) =~= sx);
    } else {
        let y2 = y.drop_last();
        let c = y.last();
        assert(sep_free(y2)) by {
            assert forall|i: int| 0 <= i < y2.len() implies !is_sep(#[trigger] y2[i]) by {
                assert(y2[i] == y[i]);
            }
        }
        lemma_split_append(x, y2);
        assert((x + y).drop_last() =~= x + y2);
        assert((x + y).last() == c);
        assert(!is_sep(y[y.len() - 1]));
        let mid = split_at_seps(x + y2);
        assert(mid =~= sx.update(sx.len() - 1, sx.last() + y2));
        assert(mid.update(mid.len() - 1, mid.last().push(c)) =~= sx.update(sx.len() - 1, sx.last() + y)) by {
            assert((sx.last() + y2).push(c) =~= sx.last() + y);
        }
    }
}

proof fn lemma_split_join(segs: Seq<Seq<char>>)
    requires
        segs.len() >= 1,
        forall|k: int| 0 <= k < segs.len() ==> sep_free(#[trigger] segs[k]),
    ensures
        split_at_seps(join_backslash(segs)) == segs,
    decreases segs.len(),
{
    if segs.len() == 1 {
        assert(sep_free(segs[0]));
        lemma_split_append(Seq::empty(), segs[0]);
        assert(Seq::<char>::empty() + segs[0] =~= segs[0]);
        assert(split_at_seps(Seq::<char>::empty()) == seq![Seq::<char>::empty()]);
        assert(seq![Seq::<char>::empty()].update(0, Seq::<char>::empty() + segs[0]) =~= segs);
    } else {
        let front = segs.drop_last();
        assert forall|k: int| 0 <= k < front.len() implies sep_free(#[trigger] front[k]) by {
            assert(front[k] == segs[k]);
        }
        lemma_split_join(front);
        let a = join_backslash(front) + seq!['\\'];
        assert(a.drop_last() =~= join_backslash(front));
        assert(a.last() == '\\');
        assert(split_at_seps(a) == front.push(Seq::<char>::empty()));
        assert(sep_free(segs[segs.len() - 1]));
        lemma_split_append(a, segs.last());
        assert(join_backslash(segs) == a + segs.last());
        let pushed = front.push(Seq::<char>::empty());
        assert(pushed.update(pushed.len() - 1, pushed.last() + segs.last()) =~= segs) by {
            assert(Seq::<char>::empty() + segs.last() =~= segs.last());
        }
    }
}

/// Lower-cases every segment.
pub open spec fn lower_segments(segs: Seq<Seq<char>>) -> Seq<Seq<char>> {
    segs.map_values(|seg: Seq<char>| lower_seq(seg))
}

proof fn lemma_lower_join(segs: Seq<Seq<char>>)
    ensures
        lower_seq(join_backslash(segs)) == join_backslash(lower_segments(segs)),
    decreases segs.len(),
{
    if segs.len() == 1 {
        assert(lower_segments(segs)[0] == lower_seq(segs[0]));
    } else if segs.len() > 1 {
        let front = segs.drop_last();
        lemma_lower_join(front);
        assert(lower_segments(segs).drop_last() =~= lower_segments(front));
        assert(lower_segments(segs).last() == lower_seq(segs.last()));
        assert(lower_seq(join_backslash(front) + seq!['\\'] + segs.last()) =~= lower_seq(join_backslash(front))
            + seq!['\\'] + lower_seq(segs.last()));
    } else {
        assert(lower_seq(Seq::<char>::empty()) =~= Seq::<char>::empty());
    }
}

proof fn lemma_ascii_lower_idempotent(c: char)
    ensures
        ascii_lower(ascii_lower(c)) == ascii_lower(c),
        ascii_lower(c) == '.' ==> c == '.',
        is_sep(ascii_lower(c)) ==> is_sep(c),
{
    if 'A' <= c && c <= 'Z' {
        assert(('a' as u32) <= (ascii_lower(c) as u32) <= ('z' as u32));
    }
}

proof fn lemma_lower_clean(seg: Seq<char>)
    requires
        clean_segment(seg),
    ensures
        clean_segment(lower_seq(seg)),
        lower_seq(lower_seq(seg)) == lower_seq(seg),
{
    let low = lower_seq(seg);
    assert forall|i: int| 0 <= i < low.len() implies !is_sep(#[trigger] low[i]) by {
        lemma_ascii_lower_idempotent(seg[i]);
    }
    if low == seq!['.'] {
        assert(low.len() == 1);
        assert(seg.len() == 1);
        assert(low[0] == ascii_lower(seg[0]));
        assert(low[0] == '.');
        lemma_ascii_lower_idempotent(seg[0]);
        assert(seg =~= seq!['.']);
    }
    if low == seq!['.', '.'] {
        assert(low.len() == 2);
        assert(seg.len() == 2);
        assert(low[0] == ascii_lower(seg[0]) && low[1] == ascii_lower(seg[1]));
        assert(low[0] == '.' && low[1] == '.');
        lemma_ascii_lower_idempotent(seg[0]);
        lemma_ascii_lower_idempotent(seg[1]);
        assert(seg =~= seq!['.', '.']);
    }
    assert forall|i: int| 0 <= i < seg.len() implies lower_seq(low)[i] == low[i] by {
        lemma_ascii_lower_idempotent(seg[i]);
    }
    assert(lower_seq(low) =~= low);
}

/// Normalizing is idempotent: a normalized path is its own canonical form,
/// so paths stored normalized are found again by normalizing a request.
pub proof fn lemma_normalized_idempotent(p: Seq<char>)
    ensures
        normalized(normalized(p)) == normalized(p),
{
    let segs = resolve_segments(split_at_seps(p));
    lemma_split_pieces_sep_free(p);
    lemma_resolve_clean(split_at_seps(p));
    lemma_lower_join(segs);
    let low = lower_segments(segs);
    assert forall|k: int| 0 <= k < low.len() implies clean_segment(#[trigger] low[k]) by {
        lemma_lower_clean(segs[k]);
    }
    if segs.len() == 0 {
        assert(low =~= Seq::<Seq<char>>::empty());
        assert(normalized(p) == Seq::<char>::empty());
        assert(split_at_seps(Seq::<char>::empty()) == seq![Seq::<char>::empty()]);
        assert(seq![Seq::<char>::empty()].drop_last() =~= Seq::<Seq<char>>::empty());
        let single = seq![Seq::<char>::empty()];
        assert(resolve_segments(single.drop_last()) == Seq::<Seq<char>>::empty());
        assert(single.last().len() == 0);
        assert(resolve_segments(single) == resolve_step(resolve_segments(single.drop_last()), single.last()));
        assert(resolve_segments(single) == Seq::<Seq<char>>::empty());
        assert(lower_seq(Seq::<char>::empty()) =~= Seq::<char>::empty());
    } else {
        assert forall|k: int| 0 <= k < low.len() implies sep_free(#[trigger] low[k]) by {
            assert(clean_segment(low[k]));
        }
        lemma_split_join(low);
        lemma_resolve_identity(low);
        lemma_lower_join(low);
        assert(lower_segments(low) =~= low) by {
            assert forall|k: int| 0 <= k < low.len() implies lower_segments(low)[k] == low[k] by {
                lemma_lower_clean(segs[k]);
            }
        }
    }
}

/// A character as normalizing sees it: either separator as a backslash,
/// ASCII letters in lower case.
pub open spec fn fold_char(c: char) -> char {
    if is_sep(c) {
        '\\'
    } else {
        ascii_lower(c)
    }
}

/// Two paths that differ only in the direction of their separators and in
/// the case of ASCII letters.
pub open spec fn same_folded(a: Seq<char>, b: Seq<char>) -> bool {
    &&& a.len() == b.len()
    &&& forall|i: int| 0 <= i < a.len() ==> fold_char(#[trigger] a[i]) == fold_char(b[i])
}

/// A character with ASCII letters in upper case.
pub open spec fn ascii_upper(c: char) -> char {
    if 'a' <= c && c <= 'z' {
        ((c as u32) - 32) as char
    } else {
        c
    }
}

/// A path with every backslash turned into a forward slash.
pub open spec fn forward_slashes(p: Seq<char>) -> Seq<char> {
    p.map_values(|c: char| if c == '\\' { '/' } else { c })
}

/// A path with ASCII letters in upper case.
pub open spec fn upper_seq(p: Seq<char>) -> Seq<char> {
    p.map_values(|c: char| ascii_upper(c))
}

proof fn lemma_fold_sep(c: char)
    ensures
        (fold_char(c) == '\\') == is_sep(c),
        !is_sep(c) ==> fold_char(c) == ascii_lower(c),
{
    lemma_ascii_lower_idempotent(c);
}

proof fn lemma_lower_push(s: Seq<char>, c: char)
    ensures
        lower_seq(s.push(c)) == lower_seq(s).push(ascii_lower(c)),
{
    assert(lower_seq(s.push(c)) =~= lower_seq(s).push(ascii_lower(c)));
}

proof fn lemma_split_folded(a: Seq<char>, b: Seq<char>)
    requires
        same_folded(a, b),
    ensures
        lower_segments(split_at_seps(a)) == lower_segments(split_at_seps(b)),
    decreases a.len(),
{
    if a.len() == 0 {
        assert(b.len() == 0);
    } else {
        let a2 = a.drop_last();
        let b2 = b.drop_last();
        assert(same_folded(a2, b2)) by {
            assert forall|i: int| 0 <= i < a2.len() implies fold_char(#[trigger] a2[i]) == fold_char(b2[i]) by {
                assert(a2[i] == a[i] && b2[i] == b[i]);
            }
        }
        lemma_split_folded(a2, b2);
        lemma_split_pieces_sep_free(a2);
        lemma_split_pieces_sep_free(b2);
        let ra = split_at_seps(a2);
        let rb = split_at_seps(b2);
        let ca = a.last();
        let cb = b.last();
        assert(fold_char(a[a.len() - 1]) == fold_char(b[a.len() - 1]));
        lemma_fold_sep(ca);
        lemma_fold_sep(cb);
        assert(lower_segments(ra).len() == ra.len() && lower_segments(rb).len() == rb.len());
        assert(ra.len() == rb.len());
        if is_sep(ca) {
            assert(lower_segments(ra.push(Seq::<char>::empty())) =~= lower_segments(ra).push(
                lower_seq(Seq::<char>::empty()),
            ));
            assert(lower_segments(rb.push(Seq::<char>::empty())) =~= lower_segments(rb).push(
                lower_seq(Seq::<char>::empty()),
            ));
        } else {
            let n = ra.len() - 1;
            assert(lower_segments(ra)[n] == lower_segments(rb)[n]);
            lemma_lower_push(ra[n], ca);
            lemma_lower_push(rb[n], cb);
            let ua = ra.update(n, ra.last().push(ca));
            let ub = rb.update(n, rb.last().push(cb));
            assert(lower_segments(ua) =~= lower_segments(ub)) by {
                assert forall|k: int| 0 <= k < ua.len() implies lower_segments(ua)[k] == lower_segments(ub)[k] by {
                    if k < n {
                        assert(lower_segments(ra)[k] == lower_segments(rb)[k]);
                    }
                }
            }
        }
    }
}

/// Resolves segments from left to right, starting from segments already kept.
pub open spec fn resolve_from(kept: Seq<Seq<char>>, segs: Seq<Seq<char>>) -> Seq<Seq<char>>
    decreases segs.len(),
{
    if segs.len() == 0 {
        kept
    } else {
        resolve_step(resolve_from(kept, segs.drop_last()), segs.last())
    }
}

proof fn lemma_resolve_concat(a: Seq<Seq<char>>, b: Seq<Seq<char>>)
    ensures
        resolve_segments(a + b) == resolve_from(resolve_segments(a), b),
    decreases b.len(),
{
    if b.len() == 0 {
        assert(a + b =~= a);
    } else {
        lemma_resolve_concat(a, b.drop_last());
        assert((a + b).drop_last() =~= a + b.drop_last());
        assert((a + b).last() == b.last());
    }
}

proof fn lemma_lower_dot(seg: Seq<char>)
    ensures
        (lower_seq(seg) == seq!['.']) == (seg == seq!['.']),
        (lower_seq(seg) == seq!['.', '.']) == (seg == seq!['.', '.']),
        lower_seq(seg).len() == seg.len(),
{
    assert(lower_seq(seg).len() == seg.len());
    if lower_seq(seg) == seq!['.'] {
        assert(seg.len() == 1);
        assert(lower_seq(seg)[0] == ascii_lower(seg[0]));
        lemma_ascii_lower_idempotent(seg[0]);
        assert(seg =~= seq!['.']);
    }
    if seg == seq!['.'] {
        assert(lower_seq(seg) =~= seq!['.']);
    }
    if lower_seq(seg) == seq!['.', '.'] {
        assert(seg.len() == 2);
        assert(lower_seq(seg)[0] == ascii_lower(seg[0]) && lower_seq(seg)[1] == ascii_lower(seg[1]));
        lemma_ascii_lower_idempotent(seg[0]);
        lemma_ascii_lower_idempotent(seg[1]);
        assert(seg =~= seq!['.', '.']);
    }
    if seg == seq!['.', '.'] {
        assert(lower_seq(seg) =~= seq!['.', '.']);
    }
}

proof fn lemma_resolve_lower(k1: Seq<Seq<char>>, k2: Seq<Seq<char>>, s1: Seq<Seq<char>>, s2: Seq<Seq<char>>)
    requires
        lower_segments(k1) == lower_segments(k2),
        lower_segments(s1) == lower_segments(s2),
    ensures
        lower_segments(resolve_from(k1, s1)) == lower_segments(resolve_from(k2, s2)),
    decreases s1.len(),
{
    assert(s1.len() == lower_segments(s1).len() && s2.len() == lower_segments(s2).len());
    if s1.len() > 0 {
        let n = s1.len() - 1;
        assert(lower_segments(s1.drop_last()) =~= lower_segments(s1).drop_last());
        assert(lower_segments(s2.drop_last()) =~= lower_segments(s2).drop_last());
        lemma_resolve_lower(k1, k2, s1.drop_last(), s2.drop_last());
        let r1 = resolve_from(k1, s1.drop_last());
        let r2 = resolve_from(k2, s2.drop_last());
        let g1 = s1.last();
        let g2 = s2.last();
        assert(lower_segments(s1)[n] == lower_segments(s2)[n]);
        assert(lower_seq(g1) == lower_seq(g2));
        lemma_lower_dot(g1);
        lemma_lower_dot(g2);
        assert(r1.len() == lower_segments(r1).len() && r2.len() == lower_segments(r2).len());
        if g1.len() == 0 || g1 == seq!['.'] {
        } else if g1 == seq!['.', '.'] {
            if r1.len() > 0 {
                assert(lower_segments(r1.drop_last()) =~= lower_segments(r1).drop_last());
                assert(lower_segments(r2.drop_last()) =~= lower_segments(r2).drop_last());
            }
        } else {
            assert(lower_segments(r1.push(g1)) =~= lower_segments(r1).push(lower_seq(g1)));
            assert(lower_segments(r2.push(g2)) =~= lower_segments(r2).push(lower_seq(g2)));
        }
    }
}

proof fn lemma_resolve_from_empty(segs: Seq<Seq<char>>)
    ensures
        resolve_segments(segs) == resolve_from(Seq::empty(), segs),
    decreases segs.len(),
{
    if segs.len() > 0 {
        lemma_resolve_from_empty(segs.drop_last());
    }
}

/// Normalizing does not depend on the direction of separators or on the
/// case of ASCII letters: paths that differ only in these normalize alike.
pub proof fn lemma_normalized_folded(a: Seq<char>, b: Seq<char>)
    requires
        same_folded(a, b),
    ensures
        normalized(a) == normalized(b),
{
    lemma_split_folded(a, b);
    lemma_resolve_from_empty(split_at_seps(a));
    lemma_resolve_from_empty(split_at_seps(b));
    lemma_resolve_lower(Seq::empty(), Seq::empty(), split_at_seps(a), split_at_seps(b));
    lemma_lower_join(resolve_segments(split_at_seps(a)));
    lemma_lower_join(resolve_segments(split_at_seps(b)));
}

/// Turning backslashes into forward slashes, or ASCII letters into upper
/// case, does not change the normalized path.
pub proof fn lemma_normalized_slash_and_case(p: Seq<char>)
    ensures
        normalized(forward_slashes(p)) == normalized(p),
        normalized(upper_seq(p)) == normalized(p),
{
    assert(same_folded(forward_slashes(p), p)) by {
        assert forall|i: int| 0 <= i < p.len() implies fold_char(#[trigger] forward_slashes(p)[i]) == fold_char(p[i]) by {
            lemma_fold_sep(p[i]);
        }
    }
    assert(same_folded(upper_seq(p), p)) by {
        assert forall|i: int| 0 <= i < p.len() implies fold_char(#[trigger] upper_seq(p)[i]) == fold_char(p[i]) by {
            let c = p[i];
            if 'a' <= c && c <= 'z' {
                let u = ((c as u32) - 32) as char;
                assert(u as u32 == (c as u32) - 32);
                assert('A' <= u && u <= 'Z');
                assert(((u as u32) + 32) as char == c);
            }
        }
    }
    lemma_normalized_folded(forward_slashes(p), p);
    lemma_normalized_folded(upper_seq(p), p);
}

proof fn lemma_split_sep_concat(x: Seq<char>, c: char, y: Seq<char>)
    requires
        is_sep(c),
    ensures
        split_at_seps(x.push(c) + y) == split_at_seps(x) + split_at_seps(y),
    decreases y.len(),
{
    if y.len() == 0 {
        assert(x.push(c) + y =~= x.push(c));
        assert(x.push(c).drop_last() =~= x);
        assert(split_at_seps(x) + seq![Seq::<char>::empty()] =~= split_at_seps(x).push(Seq::<char>::empty()));
    } else {
        lemma_split_sep_concat(x, c, y.drop_last());
        lemma_split_pieces_sep_free(y.drop_last());
        assert((x.push(c) + y).drop_last() =~= x.push(c) + y.drop_last());
        assert((x.push(c) + y).last() == y.last());
        let sx = split_at_seps(x);
        let sy = split_at_seps(y.drop_last());
        if is_sep(y.last()) {
            assert((sx + sy).push(Seq::<char>::empty()) =~= sx + sy.push(Seq::<char>::empty()));
        } else {
            let both = sx + sy;
            assert(both.update(both.len() - 1, both.last().push(y.last())) =~= sx + sy.update(
                sy.len() - 1,
                sy.last().push(y.last()),
            ));
        }
    }
}

proof fn lemma_lower_segments_idempotent(segs: Seq<Seq<char>>)
    ensures
        lower_segments(lower_segments(segs)) == lower_segments(segs),
{
    assert forall|k: int| 0 <= k < segs.len() implies lower_segments(lower_segments(segs))[k] == lower_segments(
        segs,
    )[k] by {
        let seg = segs[k];
        assert forall|i: int| 0 <= i < seg.len() implies lower_seq(lower_seq(seg))[i] == lower_seq(seg)[i] by {
            lemma_ascii_lower_idempotent(seg[i]);
        }
        assert(lower_seq(lower_seq(seg)) =~= lower_seq(seg));
    }
    assert(lower_segments(lower_segments(segs)) =~= lower_segments(segs));
}

/// The segments a normalized path splits into are its resolved segments,
/// lower-cased; resolving them again changes nothing.
proof fn lemma_normalized_segments(p: Seq<char>)
    ensures
        resolve_segments(split_at_seps(normalized(p))) == lower_segments(resolve_segments(split_at_seps(p))),
{
    let segs = resolve_segments(split_at_seps(p));
    lemma_split_pieces_sep_free(p);
    lemma_resolve_clean(split_at_seps(p));
    lemma_lower_join(segs);
    let low = lower_segments(segs);
    assert forall|k: int| 0 <= k < low.len() implies clean_segment(#[trigger] low[k]) by {
        lemma_lower_clean(segs[k]);
    }
    if segs.len() == 0 {
        assert(low =~= Seq::<Seq<char>>::empty());
        let single = seq![Seq::<char>::empty()];
        assert(split_at_seps(Seq::<char>::empty()) == single);
        assert(single.drop_last() =~= Seq::<Seq<char>>::empty());
        assert(resolve_segments(single) == resolve_step(resolve_segments(single.drop_last()), single.last()));
    } else {
        assert forall|k: int| 0 <= k < low.len() implies sep_free(#[trigger] low[k]) by {
            assert(clean_segment(low[k]));
        }
        lemma_split_join(low);
        lemma_resolve_identity(low);
    }
}

/// Normalizing the leading part of a path first does not change the result:
/// `a/b` and `normalized(a)/b` normalize alike.
pub proof fn lemma_normalized_prefix(a: Seq<char>, b: Seq<char>)
    ensures
        normalized(a.push('/') + b) == normalized(normalized(a).push('/') + b),
{
    let n = normalized(a);
    lemma_split_sep_concat(a, '/', b);
    lemma_split_sep_concat(n, '/', b);
    lemma_resolve_concat(split_at_seps(a), split_at_seps(b));
    lemma_resolve_concat(split_at_seps(n), split_at_seps(b));
    lemma_normalized_segments(a);
    let ka = resolve_segments(split_at_seps(a));
    lemma_lower_segments_idempotent(ka);
    lemma_resolve_lower(ka, lower_segments(ka), split_at_seps(b), split_at_seps(b));
    lemma_lower_join(resolve_from(ka, split_at_seps(b)));
    lemma_lower_join(resolve_from(lower_segments(ka), split_at_seps(b)));
}

} // verus!

verus! {

/// The folder name that marks the root of an asset tree.
pub open spec fn meshes_word() -> Seq<char> {
    seq!['m', 'e', 's', 'h', 'e', 's']
}

/// `pat` occurs at index `i` of `s`, comparing `s` in ASCII lower case.
pub open spec fn matches_ci_at(s: Seq<char>, i: int, pat: Seq<char>) -> bool {
    &&& 0 <= i
    &&& i + pat.len() <= s.len()
    &&& forall|j: int| 0 <= j < pat.len() ==> ascii_lower(#[trigger] s[i + j]) == pat[j]
}

/// The first index at or after `i` where `pat` occurs case-insensitively.
pub open spec fn find_ci_from(s: Seq<char>, pat: Seq<char>, i: int) -> Option<int>
    decreases s.len() - i,
{
    if i < 0 || i >= s.len() || i + pat.len() > s.len() {
        None
    } else if matches_ci_at(s, i, pat) {
        Some(i)
    } else {
        find_ci_from(s, pat, i + 1)
    }
}

/// The asset root of a NIF path: everything before its first `meshes`
/// (any case), without the separator that directly precedes it;
/// empty (the archive root) when the path names no `meshes` folder.
pub open spec fn nif_base_dir(p: Seq<char>) -> Seq<char> {
    match find_ci_from(p, meshes_word(), 0) {
        Some(idx) => if idx > 0 && is_sep(p[idx - 1]) {
            p.take(idx - 1)
        } else {
            p.take(idx)
        },
        None => Seq::empty(),
    }
}

fn matches_meshes_at(s: &Vec<char>, i: usize) -> (r: bool)
    ensures
        r == matches_ci_at(s@, i as int, meshes_word()),
{
    if i > s.len() || s.len() - i < 6 {
        return false;
    }
    let pat = ['m', 'e', 's', 'h', 'e', 's'];
    assert(pat@ == meshes_word());
    let mut j: usize = 0;
    while j < 6
        invariant
            i + 6 <= s.len(),
            pat@ == meshes_word(),
            j <= 6,
            forall|k: int| 0 <= k < j ==> ascii_lower(#[trigger] s@[i + k]) == meshes_word()[k],
        decreases 6 - j,
    {
        if to_ascii_lower(s[i + j]) != pat[j] {
            return false;
        }
        j += 1;
    }
    true
}

/// Given a NIF path, finds the folder that holds its `meshes` tree:
/// for `mods/example/meshes/tree.nif` it gives `mods/example`.
pub fn get_nif_base_dir(path: &str) -> (r: &str)
    ensures
        r@ == nif_base_dir(path@),
{
    let chars = chars_of(path);
    let mut i: usize = 0;
    while i < chars.len()
        invariant
            chars@ == path@,
            i <= chars.len(),
            find_ci_from(chars@, meshes_word(), 0) == find_ci_from(chars@, meshes_word(), i as int),
        decreases chars.len() - i,
    {
        if matches_meshes_at(&chars, i) {
            let end = if i > 0 && (chars[i - 1] == '/' || chars[i - 1] == '\\') {
                i - 1
            } else {
                i
            };
            return path.substring_char(0, end);
        }
        i += 1;
    }
    path.substring_char(0, 0)
}


/// The folders of a NIF path after resolution: all its segments but the last.
pub open spec fn nif_dir_depth(nif: Seq<char>) -> int {
    let n = resolve_segments(split_at_seps(nif)).len();
    if n > 0 {
        n - 1
    } else {
        0
    }
}

/// The archive path tried for `requested` relative to the ancestor folder of
/// the NIF that keeps its first `k` folders.
pub open spec fn asset_candidate(nif: Seq<char>, requested: Seq<char>, k: int) -> Seq<char> {
    normalized(join_backslash(resolve_segments(split_at_seps(nif)).take(k)) + seq!['\\'] + requested)
}

/// Searches the candidates from the folder of depth `k` up to the root and
/// gives the first file found.
pub open spec fn find_asset(
    files: Map<Seq<char>, Seq<u8>>,
    nif: Seq<char>,
    requested: Seq<char>,
    k: int,
) -> Option<Seq<u8>>
    decreases k + 1,
{
    if k < 0 {
        None
    } else {
        let c = asset_candidate(nif, requested, k);
        if files.contains_key(c) {
            Some(files[c])
        } else {
            find_asset(files, nif, requested, k - 1)
        }
    }
}


proof fn lemma_find_ci_in_range(s: Seq<char>, pat: Seq<char>, i: int)
    ensures
        find_ci_from(s, pat, i) matches Some(idx) ==> i <= idx && idx + pat.len() <= s.len(),
    decreases s.len() - i,
{
    if !(i < 0 || i >= s.len() || i + pat.len() > s.len()) && !matches_ci_at(s, i, pat) {
        lemma_find_ci_in_range(s, pat, i + 1);
    }
}

/// The asset root of a NIF path is a leading part of the path.
pub proof fn lemma_nif_base_dir_prefix(p: Seq<char>)
    ensures
        nif_base_dir(p).len() <= p.len(),
        nif_base_dir(p) == p.take(nif_base_dir(p).len() as int),
{
    lemma_find_ci_in_range(p, meshes_word(), 0);
    if nif_base_dir(p).len() == 0 {
        assert(p.take(0) =~= Seq::<char>::empty());
    }
}

/// The non-empty pieces among a split.
pub open spec fn nonempty_pieces(pieces: Seq<Seq<char>>) -> Seq<Seq<char>>
    decreases pieces.len(),
{
    if pieces.len() == 0 {
        Seq::empty()
    } else if pieces.last().len() > 0 {
        nonempty_pieces(pieces.drop_last()).push(pieces.last())
    } else {
        nonempty_pieces(pieces.drop_last())
    }
}

/// The folders and the file name of a path inside a resource folder: its
/// non-empty pieces between separators, the last one being the file.
pub open spec fn path_parts(path: Seq<char>) -> Option<(Seq<Seq<char>>, Seq<char>)> {
    let parts = nonempty_pieces(split_at_seps(path));
    if parts.len() == 0 {
        None
    } else {
        Some((parts.drop_last(), parts.last()))
    }
}

/// Splits a path inside a resource folder into the folders to open and the
/// file to read; a path without any name is refused.
pub fn resource_path_parts(path: &str) -> (r: Option<(Vec<String>, String)>)
    ensures
        match r {
            Some((folders, file)) => path_parts(path@) == Some((folders@.map_values(|f: String| f@), file@)),
            None => path_parts(path@) is None,
        },
{
    let chars = chars_of(path);
    let mut parts: Vec<Vec<char>> = Vec::new();
    let mut current: Vec<char> = Vec::new();
    let ghost mut done: Seq<Seq<char>> = Seq::empty();
    let mut i: usize = 0;
    assert(chars@.take(0) =~= Seq::<char>::empty());
    while i < chars.len()
        invariant
            i <= chars.len(),
            split_at_seps(chars@.take(i as int)) == done.push(current@),
            seg_views(parts@) == nonempty_pieces(done),
        decreases chars.len() - i,
    {
        let c = chars[i];
        assert(chars@.take(i + 1).drop_last() =~= chars@.take(i as int));
        if c == '/' || c == '\\' {
            let mut piece: Vec<char> = Vec::new();
            std::mem::swap(&mut piece, &mut current);
            let ghost pv = piece@;
            assert(done.push(pv).drop_last() =~= done);
            if piece.len() > 0 {
                let ghost before = seg_views(parts@);
                parts.push(piece);
                assert(seg_views(parts@) =~= before.push(pv));
            }
            proof {
                done = done.push(pv);
            }
            assert(split_at_seps(chars@.take(i + 1)) =~= done.push(current@));
        } else {
            let ghost old_cur = current@;
            current.push(c);
            assert(split_at_seps(chars@.take(i + 1)) =~= done.push(current@)) by {
                let rest = split_at_seps(chars@.take(i as int));
                assert(rest.update(rest.len() - 1, rest.last().push(c)) =~= done.push(old_cur.push(c)));
            }
        }
        i += 1;
    }
    assert(chars@.take(chars.len() as int) =~= chars@);
    let ghost last = current@;
    assert(done.push(last).drop_last() =~= done);
    if current.len() > 0 {
        let ghost before = seg_views(parts@);
        parts.push(current);
        assert(seg_views(parts@) =~= before.push(last));
    }
    assert(seg_views(parts@) == nonempty_pieces(split_at_seps(path@)));
    let file = match parts.pop() {
        Some(f) => f,
        None => return None,
    };
    let mut folders: Vec<String> = Vec::new();
    let mut k: usize = 0;
    while k < parts.len()
        invariant
            k <= parts.len(),
            folders@.map_values(|f: String| f@) == seg_views(parts@).take(k as int),
        decreases parts.len() - k,
    {
        let ghost before = folders@.map_values(|f: String| f@);
        folders.push(string_from_chars(&parts[k]));
        assert(folders@.map_values(|f: String| f@) =~= before.push(parts@[k as int]@));
        assert(seg_views(parts@).take(k + 1) =~= seg_views(parts@).take(k as int).push(parts@[k as int]@));
        k += 1;
    }
    assert(seg_views(parts@).take(parts.len() as int) =~= seg_views(parts@));
    Some((folders, string_from_chars(&file)))
}

/// The candidate at the archive root is the requested path itself, normalized.
proof fn lemma_root_candidate(nif: Seq<char>, requested: Seq<char>)
    ensures
        asset_candidate(nif, requested, 0) == normalized(requested),
{
    let e = Seq::<char>::empty();
    let segs = resolve_segments(split_at_seps(nif));
    assert(segs.take(0) =~= Seq::<Seq<char>>::empty());
    assert(join_backslash(segs.take(0)) == e);
    assert(e + seq!['\\'] + requested =~= e.push('\\') + requested);
    lemma_split_sep_concat(e, '\\', requested);
    assert(split_at_seps(e) == seq![e]);
    lemma_resolve_concat(seq![e], split_at_seps(requested));
    let single = seq![e];
    assert(single.drop_last() =~= Seq::<Seq<char>>::empty());
    assert(resolve_segments(single) == resolve_step(resolve_segments(single.drop_last()), single.last()));
    assert(resolve_segments(single) == Seq::<Seq<char>>::empty());
    lemma_resolve_from_empty(split_at_seps(requested));
}

proof fn lemma_find_asset_from(files: Map<Seq<char>, Seq<u8>>, nif: Seq<char>, requested: Seq<char>, k: int)
    requires
        k >= 0,
        files.contains_key(normalized(requested)),
    ensures
        find_asset(files, nif, requested, k) is Some,
    decreases k,
{
    lemma_root_candidate(nif, requested);
    if k > 0 && !files.contains_key(asset_candidate(nif, requested, k)) {
        lemma_find_asset_from(files, nif, requested, k - 1);
    }
}

proof fn lemma_find_asset_found_in(files: Map<Seq<char>, Seq<u8>>, nif: Seq<char>, requested: Seq<char>, k: int)
    ensures
        find_asset(files, nif, requested, k) matches Some(v) ==> exists|key: Seq<char>|
            #[trigger] files.contains_key(key) && files[key] == v,
    decreases k + 1,
{
    if k >= 0 {
        let c = asset_candidate(nif, requested, k);
        if files.contains_key(c) {
            assert(files.contains_key(c) && files[c] == files[c]);
        } else {
            lemma_find_asset_found_in(files, nif, requested, k - 1);
        }
    }
}

/// The asset lookup searches up to the archive root: whenever the archive
/// holds the requested path itself (normalized), a file is found; whatever
/// is found is the contents of one of the archive's files; and an archive
/// whose only file is the requested path gives that file, wherever the NIF
/// sits.
pub proof fn lemma_find_asset_reaches_root(files: Map<Seq<char>, Seq<u8>>, nif: Seq<char>, requested: Seq<char>)
    ensures
        files.contains_key(normalized(requested)) ==> find_asset(files, nif, requested, nif_dir_depth(nif)) is Some,
        find_asset(files, nif, requested, nif_dir_depth(nif)) matches Some(v) ==> exists|key: Seq<char>|
            #[trigger] files.contains_key(key) && files[key] == v,
        files.dom() == set![normalized(requested)] ==> find_asset(files, nif, requested, nif_dir_depth(nif))
            == Some(files[normalized(requested)]),
{
    let d = nif_dir_depth(nif);
    assert(d >= 0);
    if files.contains_key(normalized(requested)) {
        lemma_find_asset_from(files, nif, requested, d);
    }
    lemma_find_asset_found_in(files, nif, requested, d);
    if files.dom() == set![normalized(requested)] {
        lemma_find_asset_from(files, nif, requested, d);
        let v = find_asset(files, nif, requested, d).unwrap();
        let key = choose|key: Seq<char>| #[trigger] files.contains_key(key) && files[key] == v;
        assert(set![normalized(requested)].contains(key));
    }
}

proof fn lemma_find_ci_first(s: Seq<char>, pat: Seq<char>, i: int, j: int)
    requires
        0 <= i <= j,
        pat.len() > 0,
        matches_ci_at(s, j, pat),
        forall|k: int| i <= k < j ==> !matches_ci_at(s, k, pat),
    ensures
        find_ci_from(s, pat, i) == Some(j),
    decreases j - i,
{
    if i < j {
        assert(!matches_ci_at(s, i, pat));
        lemma_find_ci_first(s, pat, i + 1, j);
    }
}

proof fn lemma_find_ci_none(s: Seq<char>, pat: Seq<char>, i: int)
    requires
        0 <= i,
        forall|k: int| i <= k ==> !matches_ci_at(s, k, pat),
    ensures
        find_ci_from(s, pat, i) is None,
    decreases s.len() - i,
{
    if !(i < 0 || i >= s.len() || i + pat.len() > s.len()) {
        assert(!matches_ci_at(s, i, pat));
        lemma_find_ci_none(s, pat, i + 1);
    }
}

/// The asset root of a NIF path ends at the first `meshes` in it (any case):
/// when `meshes` occurs at index `j` and nowhere before, the root is the path
/// before `j`, without a separator that directly precedes it; when it occurs
/// nowhere, the root is the archive root (empty).
pub proof fn lemma_nif_base_dir_first_meshes(p: Seq<char>, j: int)
    ensures
        matches_ci_at(p, j, meshes_word()) && (forall|k: int| 0 <= k < j ==> !matches_ci_at(p, k, meshes_word()))
            ==> nif_base_dir(p) == (if j > 0 && is_sep(p[j - 1]) {
            p.take(j - 1)
        } else {
            p.take(j)
        }),
        (forall|k: int| 0 <= k ==> !matches_ci_at(p, k, meshes_word())) ==> nif_base_dir(p) == Seq::<char>::empty(),
{
    if matches_ci_at(p, j, meshes_word()) && (forall|k: int| 0 <= k < j ==> !matches_ci_at(p, k, meshes_word())) {
        lemma_find_ci_first(p, meshes_word(), 0, j);
    }
    if forall|k: int| 0 <= k ==> !matches_ci_at(p, k, meshes_word()) {
        lemma_find_ci_none(p, meshes_word(), 0);
    }
}

} // verus!
