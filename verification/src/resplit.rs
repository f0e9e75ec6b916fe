use vstd::prelude::*;
use crate::tags::{cleared, exec_cleared};
use crate::punct::{
    has_ellipsis, is_ellipsis_text, exec_has_ellipsis, exec_is_ellipsis_text, concat,
    lemma_concat_append, lemma_concat_single, punct_split, punct_split_concat,
    lemma_without_markers_len,
};
use crate::align::{with_raw, exec_with_raw, cpairs_view, firsts, seconds, with_raw_firsts, with_raw_concat};
use crate::text::copy_range;

verus! {

/// Marks, for each character of `rc` from `i` on, whether it is taken by matching `t[ti..]`
/// greedily as a subsequence.
pub open spec fn marks_from(rc: Seq<char>, t: Seq<char>, i: int, ti: int) -> Seq<bool>
    decreases rc.len() - i,
{
    if i < 0 || i >= rc.len() {
        Seq::empty()
    } else if 0 <= ti < t.len() && rc[i] == t[ti] {
        seq![true] + marks_from(rc, t, i + 1, ti + 1)
    } else {
        seq![false] + marks_from(rc, t, i + 1, ti)
    }
}

pub proof fn lemma_marks_len(rc: Seq<char>, t: Seq<char>, i: int, ti: int)
    requires
        0 <= i <= rc.len(),
    ensures
        marks_from(rc, t, i, ti).len() == rc.len() - i,
    decreases rc.len() - i,
{
    if i < rc.len() {
        if 0 <= ti < t.len() && rc[i] == t[ti] {
            lemma_marks_len(rc, t, i + 1, ti + 1);
        } else {
            lemma_marks_len(rc, t, i + 1, ti);
        }
    }
}

/// The marked characters of `rc` at indices `idx..end`, in order.
pub open spec fn pick_from(rc: Seq<char>, marks: Seq<bool>, idx: int, end: int) -> Seq<char>
    decreases end - idx,
{
    if idx >= end {
        Seq::empty()
    } else {
        (if 0 <= idx < rc.len() && idx < marks.len() && marks[idx] {
            seq![rc[idx]]
        } else {
            Seq::empty()
        }) + pick_from(rc, marks, idx + 1, end)
    }
}

/// The re-split pairs of one dialog piece: an ellipsis segment is kept as it is; any other
/// segment keeps, of its characters, only those that the clean text of the pair had.
pub open spec fn resplit_segs(
    np: Seq<(Seq<char>, Seq<char>)>,
    rc: Seq<char>,
    marks: Seq<bool>,
    pos: int,
) -> Seq<(Seq<char>, Seq<char>)>
    decreases np.len(),
{
    if np.len() == 0 {
        Seq::empty()
    } else {
        let st = np[0].0;
        let sr = np[0].1;
        let n = st.len() as int;
        let head = if is_ellipsis_text(st) {
            (st, sr)
        } else {
            (pick_from(rc, marks, pos, pos + n), sr)
        };
        seq![head] + resplit_segs(np.drop_first(), rc, marks, pos + n)
    }
}

/// The pair `(t, rt)` hides an ellipsis: `t` is not empty and has none, while the tag-free
/// raw text has one (an ellipsis inside a quick section).
pub open spec fn hides_ellipsis(t: Seq<char>, rt: Seq<char>) -> bool {
    t.len() > 0 && !has_ellipsis(t) && has_ellipsis(cleared(rt))
}

/// One pair `(t, rt)` after re-splitting: when it hides an ellipsis, the pair is split
/// again along the raw text; else it stays as it is.
pub open spec fn resplit_pair(t: Seq<char>, rt: Seq<char>) -> Seq<(Seq<char>, Seq<char>)> {
    let rc = cleared(rt);
    if hides_ellipsis(t, rt) {
        resplit_segs(with_raw(rc, rt), rc, marks_from(rc, t, 0, 0), 0)
    } else {
        seq![(t, rt)]
    }
}

/// Every pair re-split, in order.
pub open spec fn resplit_all(pairs: Seq<(Seq<char>, Seq<char>)>) -> Seq<(Seq<char>, Seq<char>)>
    decreases pairs.len(),
{
    if pairs.len() == 0 {
        Seq::empty()
    } else {
        resplit_pair(pairs[0].0, pairs[0].1) + resplit_all(pairs.drop_first())
    }
}

fn exec_marks(rc: &[char], t: &[char]) -> (r: Vec<bool>)
    ensures
        r@ == marks_from(rc@, t@, 0, 0),
        r@.len() == rc@.len(),
{
    let mut r: Vec<bool> = Vec::new();
    let mut ti: usize = 0;
    let mut i: usize = 0;
    while i < rc.len()
        invariant
            i <= rc@.len(),
            ti <= i,
            r@ + marks_from(rc@, t@, i as int, ti as int) == marks_from(rc@, t@, 0, 0),
        decreases rc@.len() - i,
    {
        let ghost old_r = r@;
        if ti < t.len() && rc[i] == t[ti] {
            r.push(true);
            assert(old_r + (seq![true] + marks_from(rc@, t@, i + 1, ti + 1)) =~= r@ + marks_from(
                rc@,
                t@,
                i + 1,
                ti + 1,
            ));
            ti = ti + 1;
        } else {
            r.push(false);
            assert(old_r + (seq![false] + marks_from(rc@, t@, i + 1, ti as int)) =~= r@ + marks_from(
                rc@,
                t@,
                i + 1,
                ti as int,
            ));
        }
        i = i + 1;
    }
    assert(r@ + Seq::<bool>::empty() =~= r@);
    proof {
        lemma_marks_len(rc@, t@, 0, 0);
    }
    r
}

fn exec_pick(rc: &[char], marks: &Vec<bool>, pos: usize, n: usize) -> (r: Vec<char>)
    requires
        pos + n <= usize::MAX,
    ensures
        r@ == pick_from(rc@, marks@, pos as int, pos + n),
{
    let mut r: Vec<char> = Vec::new();
    let mut i: usize = 0;
    while i < n
        invariant
            i <= n,
            pos + n <= usize::MAX,
            r@ + pick_from(rc@, marks@, pos + i, pos + n) == pick_from(rc@, marks@, pos as int, pos + n),
        decreases n - i,
    {
        let idx = pos + i;
        let ghost old_r = r@;
        if idx < rc.len() && idx < marks.len() && marks[idx] {
            r.push(rc[idx]);
            assert(old_r + (seq![rc@[idx as int]] + pick_from(rc@, marks@, idx + 1, pos + n)) =~= r@
                + pick_from(rc@, marks@, idx + 1, pos + n));
        } else {
            assert(old_r + (Seq::<char>::empty() + pick_from(rc@, marks@, idx + 1, pos + n)) =~= r@
                + pick_from(rc@, marks@, idx + 1, pos + n));
        }
        i = i + 1;
    }
    assert(r@ + Seq::<char>::empty() =~= r@);
    r
}

proof fn lemma_firsts_len_bound(rc: Seq<char>, rt: Seq<char>)
    ensures
        concat(firsts(with_raw(rc, rt))).len() <= rc.len(),
{
    with_raw_firsts(rc, rt);
    punct_split_concat(rc);
    lemma_without_markers_len(rc);
    if punct_split(rc).len() == 0 {
        lemma_concat_single(Seq::<char>::empty());
    }
}

/// Re-splits one pair and appends the resulting pairs to `out`.
fn exec_resplit_pair(t: &[char], rt: &[char], out: &mut Vec<(Vec<char>, Vec<char>)>)
    ensures
        cpairs_view(final(out)@) == cpairs_view(old(out)@) + resplit_pair(t@, rt@),
{
    let rc = exec_cleared(rt);
    if t.len() > 0 && !exec_has_ellipsis(t) && exec_has_ellipsis(rc.as_slice()) {
        let np = exec_with_raw(rc.as_slice(), rt);
        let marks = exec_marks(rc.as_slice(), t);
        let ghost npv = cpairs_view(np@);
        let ghost fs = firsts(npv);
        proof {
            lemma_firsts_len_bound(rc@, rt@);
        }
        let mut pos: usize = 0;
        let mut k: usize = 0;
        let ghost base = cpairs_view(out@);
        assert(npv.skip(0) =~= npv);
        assert(fs.take(0) =~= Seq::<Seq<char>>::empty());
        while k < np.len()
            invariant
                k <= np@.len(),
                npv == cpairs_view(np@),
                fs == firsts(npv),
                npv == with_raw(rc@, rt@),
                marks@ == marks_from(rc@, t@, 0, 0),
                concat(fs).len() <= rc@.len(),
                pos == concat(fs.take(k as int)).len(),
                cpairs_view(out@) + resplit_segs(npv.skip(k as int), rc@, marks@, pos as int) == base
                    + resplit_segs(npv, rc@, marks@, 0),
            decreases np@.len() - k,
        {
            let n = np[k].0.len();
            proof {
                assert(fs.take(k + 1) =~= fs.take(k as int) + seq![fs[k as int]]);
                lemma_concat_append(fs.take(k as int), seq![fs[k as int]]);
                lemma_concat_single(fs[k as int]);
                assert(fs =~= fs.take(k + 1) + fs.skip(k + 1));
                lemma_concat_append(fs.take(k + 1), fs.skip(k + 1));
                assert(fs[k as int] == np@[k as int].0@);
                assert(npv.skip(k as int).drop_first() =~= npv.skip(k + 1));
                assert(npv.skip(k as int)[0] == (np@[k as int].0@, np@[k as int].1@));
                assert(pos + n == concat(fs.take(k + 1)).len());
                assert(concat(fs.take(k + 1)).len() <= concat(fs).len());
                assert(rc@.len() == rc.len());
            }
            let ghost old_out = cpairs_view(out@);
            if exec_is_ellipsis_text(np[k].0.as_slice()) {
                let a = copy_range(np[k].0.as_slice(), 0, n);
                let b = copy_range(np[k].1.as_slice(), 0, np[k].1.len());
                assert(np@[k as int].0@.subrange(0, n as int) =~= np@[k as int].0@);
                assert(np@[k as int].1@.subrange(0, np@[k as int].1@.len() as int) =~= np@[k as int].1@);
                out.push((a, b));
            } else {
                let a = exec_pick(rc.as_slice(), &marks, pos, n);
                let b = copy_range(np[k].1.as_slice(), 0, np[k].1.len());
                assert(np@[k as int].1@.subrange(0, np@[k as int].1@.len() as int) =~= np@[k as int].1@);
                out.push((a, b));
            }
            proof {
                let head = if is_ellipsis_text(np@[k as int].0@) {
                    (np@[k as int].0@, np@[k as int].1@)
                } else {
                    (pick_from(rc@, marks@, pos as int, pos + n), np@[k as int].1@)
                };
                assert(cpairs_view(out@) =~= old_out.push(head));
                assert(old_out + (seq![head] + resplit_segs(npv.skip(k + 1), rc@, marks@, pos + n))
                    =~= old_out.push(head) + resplit_segs(npv.skip(k + 1), rc@, marks@, pos + n));
            }
            pos = pos + n;
            k = k + 1;
        }
        assert(npv.skip(np@.len() as int) =~= Seq::<(Seq<char>, Seq<char>)>::empty());
        assert(npv.skip(0) =~= npv);
        assert(cpairs_view(out@) + Seq::<(Seq<char>, Seq<char>)>::empty() =~= cpairs_view(out@));
    } else {
        let a = copy_range(t, 0, t.len());
        let b = copy_range(rt, 0, rt.len());
        assert(t@.subrange(0, t@.len() as int) =~= t@);
        assert(rt@.subrange(0, rt@.len() as int) =~= rt@);
        let ghost old_out = cpairs_view(out@);
        out.push((a, b));
        assert(cpairs_view(out@) =~= old_out + seq![(t@, rt@)]);
    }
}

/// Every pair re-split, as character vectors.
pub fn exec_resplit_all(pairs: &Vec<(Vec<char>, Vec<char>)>) -> (r: Vec<(Vec<char>, Vec<char>)>)
    ensures
        cpairs_view(r@) == resplit_all(cpairs_view(pairs@)),
{
    let ghost pv = cpairs_view(pairs@);
    let mut r: Vec<(Vec<char>, Vec<char>)> = Vec::new();
    let mut i: usize = 0;
    assert(pv.skip(0) =~= pv);
    assert(cpairs_view(r@) =~= Seq::<(Seq<char>, Seq<char>)>::empty());
    assert(Seq::<(Seq<char>, Seq<char>)>::empty() + resplit_all(pv) =~= resplit_all(pv));
    while i < pairs.len()
        invariant
            i <= pairs@.len(),
            pv == cpairs_view(pairs@),
            cpairs_view(r@) + resplit_all(pv.skip(i as int)) == resplit_all(pv),
        decreases pairs@.len() - i,
    {
        proof {
            assert(pv.skip(i as int).drop_first() =~= pv.skip(i + 1));
            assert(pv.skip(i as int)[0] == (pairs@[i as int].0@, pairs@[i as int].1@));
        }
        let ghost before = cpairs_view(r@);
        exec_resplit_pair(pairs[i].0.as_slice(), pairs[i].1.as_slice(), &mut r);
        assert(before + (resplit_pair(pairs@[i as int].0@, pairs@[i as int].1@) + resplit_all(
            pv.skip(i + 1),
        )) =~= cpairs_view(r@) + resplit_all(pv.skip(i + 1)));
        i = i + 1;
    }
    assert(pv.skip(pairs@.len() as int) =~= Seq::<(Seq<char>, Seq<char>)>::empty());
    assert(pv.skip(0) =~= pv);
    assert(cpairs_view(r@) + Seq::<(Seq<char>, Seq<char>)>::empty() =~= cpairs_view(r@));
    r
}

proof fn lemma_resplit_segs_seconds(np: Seq<(Seq<char>, Seq<char>)>, rc: Seq<char>, marks: Seq<bool>, pos: int)
    ensures
        seconds(resplit_segs(np, rc, marks, pos)) == seconds(np),
    decreases np.len(),
{
    if np.len() > 0 {
        let n = np[0].0.len() as int;
        lemma_resplit_segs_seconds(np.drop_first(), rc, marks, pos + n);
        let r = resplit_segs(np, rc, marks, pos);
        assert(seconds(r) =~= seq![np[0].1] + seconds(resplit_segs(np.drop_first(), rc, marks, pos + n)));
        assert(seconds(np) =~= seq![np[0].1] + seconds(np.drop_first()));
    }
}

/// Re-splitting a segment along the ellipses hidden in its quick sections loses and
/// duplicates nothing of its raw text: the raw pieces, joined in order, give it back.
pub proof fn resplit_keeps_raw_text(t: Seq<char>, rt: Seq<char>)
    ensures
        concat(seconds(resplit_pair(t, rt))) == rt,
{
    let rc = cleared(rt);
    if hides_ellipsis(t, rt) {
        lemma_resplit_segs_seconds(with_raw(rc, rt), rc, marks_from(rc, t, 0, 0), 0);
        with_raw_concat(rc, rt);
    } else {
        assert(seconds(seq![(t, rt)]) =~= seq![rt]);
        lemma_concat_single(rt);
    }
}

/// Re-splitting keeps every pair that hides no ellipsis as it is: a list of such pairs comes
/// back unchanged.
pub proof fn resplit_keeps_plain_pairs(pairs: Seq<(Seq<char>, Seq<char>)>)
    requires
        forall|k: int| 0 <= k < pairs.len() ==> !hides_ellipsis(#[trigger] pairs[k].0, pairs[k].1),
    ensures
        resplit_all(pairs) == pairs,
    decreases pairs.len(),
{
    if pairs.len() > 0 {
        let rest = pairs.drop_first();
        assert forall|k: int| 0 <= k < rest.len() implies !hides_ellipsis(#[trigger] rest[k].0, rest[k].1) by {
            assert(rest[k] == pairs[k + 1]);
        }
        resplit_keeps_plain_pairs(rest);
        assert(!hides_ellipsis(pairs[0].0, pairs[0].1));
        assert(seq![(pairs[0].0, pairs[0].1)] + rest =~= pairs);
    }
}

/// Re-splitting a list of pairs loses and duplicates nothing of their raw text: the raw
/// pieces, joined in order, are the same before and after.
pub proof fn resplit_all_keeps_raw_text(pairs: Seq<(Seq<char>, Seq<char>)>)
    ensures
        concat(seconds(resplit_all(pairs))) == concat(seconds(pairs)),
    decreases pairs.len(),
{
    if pairs.len() > 0 {
        let rest = pairs.drop_first();
        let head = resplit_pair(pairs[0].0, pairs[0].1);
        resplit_all_keeps_raw_text(rest);
        resplit_keeps_raw_text(pairs[0].0, pairs[0].1);
        assert(seconds(head + resplit_all(rest)) =~= seconds(head) + seconds(resplit_all(rest)));
        lemma_concat_append(seconds(head), seconds(resplit_all(rest)));
        assert(seconds(pairs) =~= seq![pairs[0].1] + seconds(rest));
        lemma_concat_append(seq![pairs[0].1], seconds(rest));
        lemma_concat_single(pairs[0].1);
    }
}

} // verus!
