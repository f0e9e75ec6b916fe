use vstd::prelude::*;
use crate::tags::{span_ints, tag_spans, tag_spans_from, tag_match_at, lemma_tag_match_at, exec_tag_spans};
use crate::punct::{
    punct_split, exec_punct_split, concat, lemma_concat_append, lemma_concat_single, is_marker, without_markers,
    punct_split_concat,
};
use crate::text::{vecs, copy_range, append_chars};

verus! {

/// The tag spans of `s` lie inside `s`, in order, and none is empty.
pub open spec fn spans_ok(s: Seq<char>, sp: Seq<(int, int)>) -> bool {
    &&& forall|k: int| 0 <= k < sp.len() ==> 0 <= #[trigger] sp[k].0 < sp[k].1 <= s.len()
    &&& forall|k: int| 0 <= k < sp.len() - 1 ==> #[trigger] sp[k].1 <= sp[k + 1].0
}

pub proof fn lemma_tag_spans_from(s: Seq<char>, p: int)
    requires
        0 <= p,
    ensures
        spans_ok(s, tag_spans_from(s, p)),
        forall|k: int| 0 <= k < tag_spans_from(s, p).len() ==> p <= #[trigger] tag_spans_from(s, p)[k].0,
    decreases s.len() - p,
{
    if p >= s.len() {
    } else {
        lemma_tag_match_at(s, p);
        match tag_match_at(s, p) {
            Some(e) => {
                lemma_tag_spans_from(s, e);
                let rest = tag_spans_from(s, e);
                let all = seq![(p, e)] + rest;
                assert(tag_spans_from(s, p) == all);
                assert forall|k: int| 0 <= k < all.len() - 1 implies #[trigger] all[k].1 <= all[k + 1].0 by {
                    if k == 0 {
                        assert(all[1] == rest[0]);
                    } else {
                        assert(all[k] == rest[k - 1]);
                        assert(all[k + 1] == rest[k]);
                    }
                }
                assert forall|k: int| 0 <= k < all.len() implies 0 <= #[trigger] all[k].0 < all[k].1 <= s.len()
                    && p <= all[k].0 by {
                    if k > 0 {
                        assert(all[k] == rest[k - 1]);
                    }
                }
            },
            None => {
                lemma_tag_spans_from(s, p + 1);
            },
        }
    }
}

pub proof fn lemma_tag_spans(s: Seq<char>)
    ensures
        spans_ok(s, tag_spans(s)),
{
    lemma_tag_spans_from(s, 0);
}

/// Skips the tags of `raw` that start exactly where the scan stands, the next tag to meet
/// being the one at index `idx` of the spans: the new position and tag index.
pub open spec fn skip_tags(raw: Seq<char>, pos: int, idx: int) -> (int, int)
    decreases tag_spans(raw).len() - idx,
{
    let sp = tag_spans(raw);
    if 0 <= idx < sp.len() && sp[idx].0 == pos {
        skip_tags(raw, sp[idx].1, idx + 1)
    } else {
        (pos, idx)
    }
}

pub proof fn lemma_skip_tags(raw: Seq<char>, pos: int, idx: int)
    requires
        0 <= pos <= raw.len(),
        0 <= idx,
    ensures
        pos <= skip_tags(raw, pos, idx).0 <= raw.len(),
        idx <= skip_tags(raw, pos, idx).1,
        idx <= tag_spans(raw).len() ==> skip_tags(raw, pos, idx).1 <= tag_spans(raw).len(),
    decreases tag_spans(raw).len() - idx,
{
    lemma_tag_spans(raw);
    let sp = tag_spans(raw);
    if 0 <= idx < sp.len() && sp[idx].0 == pos {
        lemma_skip_tags(raw, sp[idx].1, idx + 1);
    }
}

/// Looks for the character `c` at or after `pos`, stepping over tags: where the scan stops
/// just after it, and the tag index there.
pub open spec fn scan_for(raw: Seq<char>, pos: int, idx: int, c: char) -> Option<(int, int)>
    decreases raw.len() - pos,
{
    if pos < 0 || idx < 0 || pos > raw.len() {
        None
    } else {
        let (p, k) = skip_tags(raw, pos, idx);
        if p >= raw.len() {
            None
        } else if raw[p] == c {
            Some((p + 1, k))
        } else {
            proof {
                lemma_skip_tags(raw, pos, idx);
            }
            scan_for(raw, p + 1, k, c)
        }
    }
}

/// Consumes, in `raw`, the character `c` of a clean segment: tags are stepped over; the
/// character at the scan position is taken when it is `c`; else the scan moves on to the
/// next `c` in `raw`; when there is none, nothing is taken.
pub open spec fn consume_char(raw: Seq<char>, pos: int, idx: int, c: char) -> (int, int) {
    let (p, k) = skip_tags(raw, pos, idx);
    if 0 <= p < raw.len() {
        if raw[p] == c {
            (p + 1, k)
        } else {
            match scan_for(raw, p, k, c) {
                Some(r) => r,
                None => (p, k),
            }
        }
    } else {
        (p, k)
    }
}

/// Consumes the characters `seg[j..]` in `raw`, then steps over the tags that follow.
pub open spec fn consume_seg(raw: Seq<char>, pos: int, idx: int, seg: Seq<char>, j: int) -> (int, int)
    decreases seg.len() - j,
{
    if j < 0 || j >= seg.len() {
        skip_tags(raw, pos, idx)
    } else {
        let (p, k) = consume_char(raw, pos, idx, seg[j]);
        consume_seg(raw, p, k, seg, j + 1)
    }
}

pub proof fn lemma_scan_for(raw: Seq<char>, pos: int, idx: int, c: char)
    requires
        0 <= pos <= raw.len(),
        0 <= idx,
    ensures
        scan_for(raw, pos, idx, c) matches Some(r) ==> pos < r.0 <= raw.len() && idx <= r.1,
    decreases raw.len() - pos,
{
    lemma_skip_tags(raw, pos, idx);
    let (p, k) = skip_tags(raw, pos, idx);
    if p < raw.len() && raw[p] != c {
        lemma_scan_for(raw, p + 1, k, c);
    }
}

pub proof fn lemma_consume_seg(raw: Seq<char>, pos: int, idx: int, seg: Seq<char>, j: int)
    requires
        0 <= pos <= raw.len(),
        0 <= idx,
        0 <= j,
    ensures
        pos <= consume_seg(raw, pos, idx, seg, j).0 <= raw.len(),
        idx <= consume_seg(raw, pos, idx, seg, j).1,
    decreases seg.len() - j,
{
    if j >= seg.len() {
        lemma_skip_tags(raw, pos, idx);
    } else {
        lemma_skip_tags(raw, pos, idx);
        let (p, k) = skip_tags(raw, pos, idx);
        if 0 <= p < raw.len() && raw[p] != seg[j] {
            lemma_scan_for(raw, p, k, seg[j]);
        }
        let (p2, k2) = consume_char(raw, pos, idx, seg[j]);
        lemma_consume_seg(raw, p2, k2, seg, j + 1);
    }
}

/// The raw pieces that the clean segments `segs[i..]` take in `raw`, the scan starting at
/// `pos` with tag index `idx`, and where the scan ends.
pub open spec fn align_from(raw: Seq<char>, segs: Seq<Seq<char>>, i: int, pos: int, idx: int) -> (
    Seq<Seq<char>>,
    int,
)
    decreases segs.len() - i,
{
    if i < 0 || i >= segs.len() {
        (Seq::empty(), pos)
    } else {
        let (p2, k2) = consume_seg(raw, pos, idx, segs[i], 0);
        let (rest, end) = align_from(raw, segs, i + 1, p2, k2);
        (seq![raw.subrange(pos, p2)] + rest, end)
    }
}

pub proof fn lemma_align_from(raw: Seq<char>, segs: Seq<Seq<char>>, i: int, pos: int, idx: int)
    requires
        0 <= pos <= raw.len(),
        0 <= idx,
        0 <= i,
    ensures
        pos <= align_from(raw, segs, i, pos, idx).1 <= raw.len(),
        align_from(raw, segs, i, pos, idx).0.len() == if i <= segs.len() { segs.len() - i } else { 0 },
    decreases segs.len() - i,
{
    if i < segs.len() {
        lemma_consume_seg(raw, pos, idx, segs[i], 0);
        let (p2, k2) = consume_seg(raw, pos, idx, segs[i], 0);
        lemma_align_from(raw, segs, i + 1, p2, k2);
    }
}

/// The raw pieces, the last one extended by what follows the end of the scan.
pub open spec fn raw_pieces(raw: Seq<char>, segs: Seq<Seq<char>>) -> Seq<Seq<char>> {
    let (pieces, end) = align_from(raw, segs, 0, 0, 0);
    if end < raw.len() && pieces.len() > 0 {
        pieces.update(pieces.len() - 1, pieces.last() + raw.subrange(end, raw.len() as int))
    } else {
        pieces
    }
}

/// The speech segments of the clean text, each paired with the piece of the raw text
/// (tags included) that it was spoken from. With at most one segment, the whole raw text
/// goes with it.
pub open spec fn with_raw(clean: Seq<char>, raw: Seq<char>) -> Seq<(Seq<char>, Seq<char>)> {
    let segs = punct_split(clean);
    if segs.len() <= 1 {
        seq![(if segs.len() == 1 { segs[0] } else { Seq::empty() }, raw)]
    } else {
        let pieces = raw_pieces(raw, segs);
        Seq::new(segs.len(), |i: int| (segs[i], pieces[i]))
    }
}

/// The views of a sequence of string pairs.
pub open spec fn pairs_view(v: Seq<(String, String)>) -> Seq<(Seq<char>, Seq<char>)> {
    v.map_values(|x: (String, String)| (x.0@, x.1@))
}

/// The views of a sequence of character-vector pairs.
pub open spec fn cpairs_view(v: Seq<(Vec<char>, Vec<char>)>) -> Seq<(Seq<char>, Seq<char>)> {
    v.map_values(|x: (Vec<char>, Vec<char>)| (x.0@, x.1@))
}

fn exec_skip_tags(raw: &[char], spans: &Vec<(usize, usize)>, pos: usize, idx: usize) -> (r: (
    usize,
    usize,
))
    requires
        span_ints(spans@) == tag_spans(raw@),
        pos <= raw@.len(),
    ensures
        (r.0 as int, r.1 as int) == skip_tags(raw@, pos as int, idx as int),
        r.0 <= raw@.len(),
{
    proof {
        lemma_tag_spans(raw@);
    }
    let mut p = pos;
    let mut k = idx;
    while k < spans.len() && spans[k].0 == p
        invariant
            span_ints(spans@) == tag_spans(raw@),
            spans_ok(raw@, tag_spans(raw@)),
            skip_tags(raw@, p as int, k as int) == skip_tags(raw@, pos as int, idx as int),
            p <= raw@.len(),
        decreases spans@.len() - k,
    {
        assert(tag_spans(raw@)[k as int] == (spans@[k as int].0 as int, spans@[k as int].1 as int));
        p = spans[k].1;
        k = k + 1;
    }
    proof {
        if k < spans@.len() {
            assert(tag_spans(raw@)[k as int] == (spans@[k as int].0 as int, spans@[k as int].1 as int));
        }
    }
    (p, k)
}

fn exec_scan_for(raw: &[char], spans: &Vec<(usize, usize)>, pos: usize, idx: usize, c: char) -> (r:
    Option<(usize, usize)>)
    requires
        span_ints(spans@) == tag_spans(raw@),
        pos <= raw@.len(),
    ensures
        match r {
            Some(x) => scan_for(raw@, pos as int, idx as int, c) == Some((x.0 as int, x.1 as int)),
            None => scan_for(raw@, pos as int, idx as int, c) is None,
        },
        r matches Some(x) ==> x.0 <= raw@.len(),
{
    let mut sp = pos;
    let mut sk = idx;
    loop
        invariant
            span_ints(spans@) == tag_spans(raw@),
            sp <= raw@.len(),
            scan_for(raw@, sp as int, sk as int, c) == scan_for(raw@, pos as int, idx as int, c),
        decreases raw@.len() - sp,
    {
        let (p, k) = exec_skip_tags(raw, spans, sp, sk);
        proof {
            lemma_skip_tags(raw@, sp as int, sk as int);
        }
        if p >= raw.len() {
            return None;
        }
        if raw[p] == c {
            return Some((p + 1, k));
        }
        sp = p + 1;
        sk = k;
    }
}

fn exec_consume_char(raw: &[char], spans: &Vec<(usize, usize)>, pos: usize, idx: usize, c: char) -> (r: (
    usize,
    usize,
))
    requires
        span_ints(spans@) == tag_spans(raw@),
        pos <= raw@.len(),
    ensures
        (r.0 as int, r.1 as int) == consume_char(raw@, pos as int, idx as int, c),
        r.0 <= raw@.len(),
{
    let (p, k) = exec_skip_tags(raw, spans, pos, idx);
    if p < raw.len() {
        if raw[p] == c {
            (p + 1, k)
        } else {
            match exec_scan_for(raw, spans, p, k, c) {
                Some(x) => x,
                None => (p, k),
            }
        }
    } else {
        (p, k)
    }
}

fn exec_consume_seg(raw: &[char], spans: &Vec<(usize, usize)>, pos: usize, idx: usize, seg: &[char]) -> (r: (
    usize,
    usize,
))
    requires
        span_ints(spans@) == tag_spans(raw@),
        pos <= raw@.len(),
    ensures
        (r.0 as int, r.1 as int) == consume_seg(raw@, pos as int, idx as int, seg@, 0),
        r.0 <= raw@.len(),
{
    let mut p = pos;
    let mut k = idx;
    let mut j: usize = 0;
    while j < seg.len()
        invariant
            span_ints(spans@) == tag_spans(raw@),
            p <= raw@.len(),
            j <= seg@.len(),
            consume_seg(raw@, p as int, k as int, seg@, j as int) == consume_seg(
                raw@,
                pos as int,
                idx as int,
                seg@,
                0,
            ),
        decreases seg@.len() - j,
    {
        let (p2, k2) = exec_consume_char(raw, spans, p, k, seg[j]);
        p = p2;
        k = k2;
        j = j + 1;
    }
    exec_skip_tags(raw, spans, p, k)
}

/// The clean segments paired with their raw pieces, as character vectors.
pub fn exec_with_raw(clean: &[char], raw: &[char]) -> (r: Vec<(Vec<char>, Vec<char>)>)
    ensures
        cpairs_view(r@) == with_raw(clean@, raw@),
{
    let segs = exec_punct_split(clean);
    if segs.len() <= 1 {
        let first: Vec<char> = if segs.len() == 1 {
            copy_range(segs[0].as_slice(), 0, segs[0].len())
        } else {
            Vec::new()
        };
        proof {
            if segs@.len() == 1 {
                assert(segs@[0]@.subrange(0, segs@[0]@.len() as int) =~= segs@[0]@);
                assert(vecs(segs@)[0] == segs@[0]@);
            }
        }
        let mut r: Vec<(Vec<char>, Vec<char>)> = Vec::new();
        r.push((first, copy_range(raw, 0, raw.len())));
        assert(raw@.subrange(0, raw@.len() as int) =~= raw@);
        assert(cpairs_view(r@) =~= with_raw(clean@, raw@));
        return r;
    }
    let spans = exec_tag_spans(raw);
    let ghost sv = vecs(segs@);
    let mut pieces: Vec<Vec<char>> = Vec::new();
    let mut pos: usize = 0;
    let mut idx: usize = 0;
    let mut i: usize = 0;
    while i < segs.len()
        invariant
            span_ints(spans@) == tag_spans(raw@),
            sv == vecs(segs@),
            i <= segs@.len(),
            pos <= raw@.len(),
            vecs(pieces@) + align_from(raw@, sv, i as int, pos as int, idx as int).0 == align_from(
                raw@,
                sv,
                0,
                0,
                0,
            ).0,
            align_from(raw@, sv, i as int, pos as int, idx as int).1 == align_from(raw@, sv, 0, 0, 0).1,
        decreases segs@.len() - i,
    {
        let (p2, k2) = exec_consume_seg(raw, &spans, pos, idx, segs[i].as_slice());
        proof {
            lemma_consume_seg(raw@, pos as int, idx as int, sv[i as int], 0);
        }
        let piece = copy_range(raw, pos, p2);
        let ghost old_p = pieces@;
        pieces.push(piece);
        assert(vecs(pieces@) =~= vecs(old_p).push(raw@.subrange(pos as int, p2 as int)));
        assert(vecs(old_p) + (seq![raw@.subrange(pos as int, p2 as int)] + align_from(
            raw@,
            sv,
            i + 1,
            p2 as int,
            k2 as int,
        ).0) =~= vecs(pieces@) + align_from(raw@, sv, i + 1, p2 as int, k2 as int).0);
        pos = p2;
        idx = k2;
        i = i + 1;
    }
    assert(vecs(pieces@) + Seq::<Seq<char>>::empty() =~= vecs(pieces@));
    proof {
        lemma_align_from(raw@, sv, 0, 0, 0);
    }
    let n = pieces.len();
    if pos < raw.len() && n > 0 {
        let ghost old_p = pieces@;
        let mut last = pieces.pop().unwrap();
        append_chars(&mut last, copy_range(raw, pos, raw.len()).as_slice());
        pieces.push(last);
        assert(vecs(pieces@) =~= vecs(old_p).update(n - 1, vecs(old_p).last() + raw@.subrange(
            pos as int,
            raw@.len() as int,
        )));
    }
    assert(vecs(pieces@) == raw_pieces(raw@, sv));
    let mut r: Vec<(Vec<char>, Vec<char>)> = Vec::new();
    let mut j: usize = 0;
    while j < segs.len()
        invariant
            j <= segs@.len(),
            sv == vecs(segs@),
            pieces@.len() == segs@.len(),
            vecs(pieces@) == raw_pieces(raw@, sv),
            cpairs_view(r@) =~= Seq::new(j as nat, |t: int| (sv[t], raw_pieces(raw@, sv)[t])),
        decreases segs@.len() - j,
    {
        let a = copy_range(segs[j].as_slice(), 0, segs[j].len());
        let b = copy_range(pieces[j].as_slice(), 0, pieces[j].len());
        assert(segs@[j as int]@.subrange(0, segs@[j as int]@.len() as int) =~= segs@[j as int]@);
        assert(pieces@[j as int]@.subrange(0, pieces@[j as int]@.len() as int) =~= pieces@[j as int]@);
        assert(vecs(pieces@)[j as int] == pieces@[j as int]@);
        assert(sv[j as int] == segs@[j as int]@);
        let ghost old_r = r@;
        r.push((a, b));
        assert(cpairs_view(r@) =~= cpairs_view(old_r).push((sv[j as int], raw_pieces(raw@, sv)[j as int])));
        j = j + 1;
    }
    assert(with_raw(clean@, raw@) =~= Seq::new(segs@.len() as nat, |t: int| (sv[t], raw_pieces(raw@, sv)[t])));
    r
}

/// The second components of the pairs.
pub open spec fn seconds(ps: Seq<(Seq<char>, Seq<char>)>) -> Seq<Seq<char>> {
    ps.map_values(|p: (Seq<char>, Seq<char>)| p.1)
}

/// The first components of the pairs.
pub open spec fn firsts(ps: Seq<(Seq<char>, Seq<char>)>) -> Seq<Seq<char>> {
    ps.map_values(|p: (Seq<char>, Seq<char>)| p.0)
}

proof fn lemma_align_concat(raw: Seq<char>, segs: Seq<Seq<char>>, i: int, pos: int, idx: int)
    requires
        0 <= pos <= raw.len(),
        0 <= idx,
        0 <= i,
    ensures
        concat(align_from(raw, segs, i, pos, idx).0) == raw.subrange(pos, align_from(raw, segs, i, pos, idx).1),
    decreases segs.len() - i,
{
    if i >= segs.len() {
        assert(raw.subrange(pos, pos) =~= Seq::<char>::empty());
    } else {
        lemma_consume_seg(raw, pos, idx, segs[i], 0);
        let (p2, k2) = consume_seg(raw, pos, idx, segs[i], 0);
        lemma_align_concat(raw, segs, i + 1, p2, k2);
        lemma_align_from(raw, segs, i + 1, p2, k2);
        let (rest, end) = align_from(raw, segs, i + 1, p2, k2);
        lemma_concat_append(seq![raw.subrange(pos, p2)], rest);
        lemma_concat_single(raw.subrange(pos, p2));
        assert(raw.subrange(pos, p2) + raw.subrange(p2, end) =~= raw.subrange(pos, end));
    }
}

proof fn lemma_concat_update_last(ps: Seq<Seq<char>>, tail: Seq<char>)
    requires
        ps.len() > 0,
    ensures
        concat(ps.update(ps.len() - 1, ps.last() + tail)) == concat(ps) + tail,
{
    let n = ps.len() - 1;
    let q = ps.update(n, ps.last() + tail);
    assert(ps =~= ps.take(n) + seq![ps.last()]);
    assert(q =~= ps.take(n) + seq![ps.last() + tail]);
    lemma_concat_append(ps.take(n), seq![ps.last()]);
    lemma_concat_append(ps.take(n), seq![ps.last() + tail]);
    lemma_concat_single(ps.last());
    lemma_concat_single(ps.last() + tail);
    assert(concat(ps.take(n)) + (ps.last() + tail) =~= concat(ps.take(n)) + ps.last() + tail);
}

proof fn lemma_consume_untagged(raw: Seq<char>, pos: int, idx: int, seg: Seq<char>, j: int)
    requires
        tag_spans(raw).len() == 0,
        0 <= idx,
        0 <= j <= seg.len(),
        0 <= pos,
        pos + (seg.len() - j) <= raw.len(),
        raw.subrange(pos, pos + (seg.len() - j)) == seg.subrange(j, seg.len() as int),
    ensures
        consume_seg(raw, pos, idx, seg, j) == (pos + (seg.len() - j), idx),
    decreases seg.len() - j,
{
    if j < seg.len() {
        assert(raw[pos] == raw.subrange(pos, pos + (seg.len() - j))[0]);
        assert(raw.subrange(pos + 1, pos + 1 + (seg.len() - (j + 1))) =~= raw.subrange(
            pos,
            pos + (seg.len() - j),
        ).subrange(1, seg.len() - j));
        assert(seg.subrange(j + 1, seg.len() as int) =~= seg.subrange(j, seg.len() as int).subrange(
            1,
            seg.len() - j,
        ));
        lemma_consume_untagged(raw, pos + 1, idx, seg, j + 1);
    }
}

proof fn lemma_align_untagged(raw: Seq<char>, segs: Seq<Seq<char>>, i: int, pos: int, idx: int)
    requires
        tag_spans(raw).len() == 0,
        0 <= idx,
        0 <= i <= segs.len(),
        0 <= pos,
        pos + concat(segs.skip(i)).len() <= raw.len(),
        raw.subrange(pos, pos + concat(segs.skip(i)).len()) == concat(segs.skip(i)),
    ensures
        align_from(raw, segs, i, pos, idx) == (segs.skip(i), pos + concat(segs.skip(i)).len()),
    decreases segs.len() - i,
{
    if i < segs.len() {
        let rest = segs.skip(i);
        assert(rest.drop_first() =~= segs.skip(i + 1));
        assert(rest[0] == segs[i]);
        let n = segs[i].len() as int;
        let m = concat(segs.skip(i + 1)).len() as int;
        let c = concat(rest);
        assert(c =~= segs[i] + concat(segs.skip(i + 1)));
        let big = raw.subrange(pos, pos + n + m);
        assert(big == c);
        assert(raw.subrange(pos, pos + n) =~= big.subrange(0, n));
        assert(c.subrange(0, n) =~= segs[i]);
        assert(segs[i].subrange(0, n) =~= segs[i]);
        lemma_consume_untagged(raw, pos, idx, segs[i], 0);
        assert(raw.subrange(pos + n, pos + n + m) =~= big.subrange(n, n + m));
        assert(c.subrange(n, n + m) =~= concat(segs.skip(i + 1)));
        lemma_align_untagged(raw, segs, i + 1, pos + n, idx);
        assert(seq![segs[i]] + segs.skip(i + 1) =~= rest);
    } else {
        assert(segs.skip(i) =~= Seq::<Seq<char>>::empty());
    }
}

proof fn lemma_no_markers(s: Seq<char>)
    requires
        forall|k: int| 0 <= k < s.len() ==> !is_marker(#[trigger] s[k]),
    ensures
        without_markers(s) == s,
    decreases s.len(),
{
    if s.len() > 0 {
        assert forall|k: int| 0 <= k < s.drop_first().len() implies !is_marker(#[trigger] s.drop_first()[k]) by {
            assert(s.drop_first()[k] == s[k + 1]);
        }
        lemma_no_markers(s.drop_first());
        assert(seq![s[0]] + s.drop_first() =~= s);
    }
}

/// A text without tags (and without NUL markers), paired with itself as its raw text, pairs
/// each speech segment with itself.
pub proof fn untagged_text_pairs_with_itself(text: Seq<char>)
    requires
        tag_spans(text).len() == 0,
        forall|k: int| 0 <= k < text.len() ==> !is_marker(#[trigger] text[k]),
    ensures
        forall|i: int|
            0 <= i < with_raw(text, text).len() ==> (#[trigger] with_raw(text, text)[i]).1 == with_raw(
                text,
                text,
            )[i].0,
{
    let segs = punct_split(text);
    punct_split_concat(text);
    lemma_no_markers(text);
    assert(segs.skip(0) =~= segs);
    let w = with_raw(text, text);
    if segs.len() == 0 {
        assert(concat(segs) == Seq::<char>::empty());
        assert(text =~= Seq::<char>::empty());
        assert(w =~= seq![(Seq::<char>::empty(), text)]);
    } else if segs.len() == 1 {
        assert(segs.drop_first() =~= Seq::<Seq<char>>::empty());
        assert(concat(Seq::<Seq<char>>::empty()) == Seq::<char>::empty());
        assert(concat(segs) == segs[0] + concat(segs.drop_first()));
        assert(segs[0] + Seq::<char>::empty() =~= segs[0]);
        assert(segs[0] == text);
        assert(w =~= seq![(segs[0], text)]);
    } else {
        assert(text.subrange(0, text.len() as int) =~= text);
        lemma_align_untagged(text, segs, 0, 0, 0);
        assert(raw_pieces(text, segs) == segs);
        assert forall|i: int| 0 <= i < w.len() implies (#[trigger] w[i]).1 == w[i].0 by {
            assert(w[i] == (segs[i], raw_pieces(text, segs)[i]));
        }
    }
}

/// Pairing speech segments with raw pieces loses and duplicates nothing of the raw text:
/// the raw pieces, joined in order, give back the raw text.
pub proof fn with_raw_concat(clean: Seq<char>, raw: Seq<char>)
    ensures
        concat(seconds(with_raw(clean, raw))) == raw,
{
    let segs = punct_split(clean);
    let w = with_raw(clean, raw);
    if segs.len() <= 1 {
        assert(seconds(w) =~= seq![raw]);
        lemma_concat_single(raw);
    } else {
        lemma_align_concat(raw, segs, 0, 0, 0);
        lemma_align_from(raw, segs, 0, 0, 0);
        let (pieces, end) = align_from(raw, segs, 0, 0, 0);
        if end < raw.len() {
            lemma_concat_update_last(pieces, raw.subrange(end, raw.len() as int));
            assert(raw.subrange(0, end) + raw.subrange(end, raw.len() as int) =~= raw);
        } else {
            assert(raw.subrange(0, end) =~= raw);
        }
        assert(seconds(w) =~= raw_pieces(raw, segs));
    }
}

/// The speech segments keep their order and content: the clean sides of the pairs are the
/// speech segments of the clean text (or the one empty segment when it has none).
pub proof fn with_raw_firsts(clean: Seq<char>, raw: Seq<char>)
    ensures
        punct_split(clean).len() >= 1 ==> firsts(with_raw(clean, raw)) == punct_split(clean),
        punct_split(clean).len() == 0 ==> firsts(with_raw(clean, raw)) == seq![Seq::<char>::empty()],
{
    let segs = punct_split(clean);
    if segs.len() == 1 {
        assert(firsts(with_raw(clean, raw)) =~= segs);
    } else if segs.len() == 0 {
        assert(firsts(with_raw(clean, raw)) =~= seq![Seq::<char>::empty()]);
    } else {
        assert(firsts(with_raw(clean, raw)) =~= segs);
    }
}

} // verus!
