use vstd::prelude::*;
use crate::text::{vecs, copy_range};
use crate::tags::oi;

verus! {

/// A sentence-ending mark after which speech is split: `！ ! ? ？ 。`.
pub open spec fn is_delim(c: char) -> bool {
    c == '！' || c == '!' || c == '?' || c == '？' || c == '。'
}

/// The marker that splits text without being spoken: the NUL character.
pub open spec fn is_marker(c: char) -> bool {
    c == '\0'
}

/// A one-element list holding `x` if it is not empty, else the empty list.
pub open spec fn emit(x: Seq<char>) -> Seq<Seq<char>> {
    if x.len() > 0 {
        seq![x]
    } else {
        Seq::empty()
    }
}

/// Splits `s[i..]`, with `cur` already collected, into the non-empty pieces that end just after
/// a sentence-ending mark, at a NUL (which is dropped), or at the end of the text.
pub open spec fn delim_pieces_from(s: Seq<char>, i: int, cur: Seq<char>) -> Seq<Seq<char>>
    decreases s.len() - i,
{
    if i < 0 || i >= s.len() {
        emit(cur)
    } else if is_marker(s[i]) {
        emit(cur) + delim_pieces_from(s, i + 1, Seq::empty())
    } else if is_delim(s[i]) {
        emit(cur.push(s[i])) + delim_pieces_from(s, i + 1, Seq::empty())
    } else {
        delim_pieces_from(s, i + 1, cur.push(s[i]))
    }
}

/// The index just after the run of `c` that starts at `i`.
pub open spec fn run_end(s: Seq<char>, i: int, c: char) -> int
    decreases s.len() - i,
{
    if i < 0 || i >= s.len() || s[i] != c {
        i
    } else {
        run_end(s, i + 1, c)
    }
}

/// The end of the ellipsis that starts at `i`, if one does: a run of `…`, or a run of at
/// least two `・`, or of at least two `.`.
pub open spec fn ellipsis_at(s: Seq<char>, i: int) -> Option<int> {
    if !(0 <= i < s.len()) {
        None
    } else if s[i] == '…' {
        Some(run_end(s, i, '…'))
    } else if s[i] == '・' && i + 1 < s.len() && s[i + 1] == '・' {
        Some(run_end(s, i, '・'))
    } else if s[i] == '.' && i + 1 < s.len() && s[i + 1] == '.' {
        Some(run_end(s, i, '.'))
    } else {
        None
    }
}

pub proof fn lemma_run_end(s: Seq<char>, i: int, c: char)
    ensures
        0 <= i ==> i <= run_end(s, i, c) <= if i <= s.len() { s.len() as int } else { i },
        0 <= i ==> forall|j: int| i <= j < run_end(s, i, c) ==> s[j] == c,
        0 <= i <= run_end(s, i, c) < s.len() ==> s[run_end(s, i, c)] != c,
    decreases s.len() - i,
{
    if i < 0 || i >= s.len() || s[i] != c {
    } else {
        lemma_run_end(s, i + 1, c);
    }
}

pub proof fn lemma_ellipsis_at(s: Seq<char>, i: int)
    ensures
        ellipsis_at(s, i) matches Some(e) ==> 0 <= i < e <= s.len(),
{
    lemma_run_end(s, i, '…');
    lemma_run_end(s, i, '・');
    lemma_run_end(s, i, '.');
}

/// Splits `s[start..]` into pieces each of which ends just after an ellipsis, scanning for
/// ellipses from `pos`; what follows the last ellipsis is a piece of its own.
pub open spec fn ellipsis_pieces_from(s: Seq<char>, start: int, pos: int) -> Seq<Seq<char>>
    decreases s.len() - pos,
{
    if pos < 0 || pos >= s.len() {
        if 0 <= start < s.len() {
            seq![s.subrange(start, s.len() as int)]
        } else {
            Seq::empty()
        }
    } else {
        match ellipsis_at(s, pos) {
            Some(e) => {
                proof {
                    lemma_ellipsis_at(s, pos);
                }
                seq![s.subrange(start, e)] + ellipsis_pieces_from(s, e, e)
            },
            None => ellipsis_pieces_from(s, start, pos + 1),
        }
    }
}

/// The pieces of `s` cut after each ellipsis.
pub open spec fn ellipsis_pieces(s: Seq<char>) -> Seq<Seq<char>> {
    ellipsis_pieces_from(s, 0, 0)
}

/// Each piece of `ps` cut further after its ellipses, in order.
pub open spec fn split_each(ps: Seq<Seq<char>>) -> Seq<Seq<char>>
    decreases ps.len(),
{
    if ps.len() == 0 {
        Seq::empty()
    } else {
        ellipsis_pieces(ps[0]) + split_each(ps.drop_first())
    }
}

/// The speech segments of `s`: cut after sentence-ending marks and at NULs, then after
/// ellipses; no segment is empty.
pub open spec fn punct_split(s: Seq<char>) -> Seq<Seq<char>> {
    split_each(delim_pieces_from(s, 0, Seq::empty()))
}

/// Some ellipsis occurs in `s`.
pub open spec fn has_ellipsis(s: Seq<char>) -> bool {
    exists|i: int| 0 <= i < s.len() && #[trigger] ellipsis_at(s, i) is Some
}

/// `s` is nothing but one ellipsis: only `…` (at least one), or only `・`, or only `.` (at
/// least two of them).
pub open spec fn is_ellipsis_text(s: Seq<char>) -> bool {
    s.len() > 0 && (
    (forall|i: int| 0 <= i < s.len() ==> s[i] == '…') || (s.len() >= 2 && forall|i: int|
        0 <= i < s.len() ==> s[i] == '・') || (s.len() >= 2 && forall|i: int|
        0 <= i < s.len() ==> s[i] == '.'))
}

fn is_delim_exec(c: char) -> (r: bool)
    ensures
        r == is_delim(c),
{
    c == '！' || c == '!' || c == '?' || c == '？' || c == '。'
}

/// The pieces of `s` cut after sentence-ending marks and at NULs.
pub fn delim_pieces(s: &[char]) -> (r: Vec<Vec<char>>)
    ensures
        vecs(r@) == delim_pieces_from(s@, 0, Seq::empty()),
{
    let mut r: Vec<Vec<char>> = Vec::new();
    let mut cur: Vec<char> = Vec::new();
    let mut i: usize = 0;
    while i < s.len()
        invariant
            i <= s@.len(),
            vecs(r@) + delim_pieces_from(s@, i as int, cur@) == delim_pieces_from(
                s@,
                0,
                Seq::empty(),
            ),
        decreases s@.len() - i,
    {
        let c = s[i];
        let ghost old_r = r@;
        let ghost old_cur = cur@;
        if c == '\0' {
            if cur.len() > 0 {
                let piece = cur;
                r.push(piece);
                assert(vecs(r@) =~= vecs(old_r) + emit(old_cur));
            } else {
                assert(vecs(r@) =~= vecs(old_r) + emit(old_cur));
            }
            cur = Vec::new();
            assert(vecs(old_r) + (emit(old_cur) + delim_pieces_from(s@, i + 1, Seq::empty()))
                == vecs(old_r) + emit(old_cur) + delim_pieces_from(s@, i + 1, Seq::empty()));
        } else if is_delim_exec(c) {
            cur.push(c);
            let piece = cur;
            r.push(piece);
            assert(vecs(r@) =~= vecs(old_r) + emit(old_cur.push(c)));
            cur = Vec::new();
            assert(vecs(old_r) + (emit(old_cur.push(c)) + delim_pieces_from(s@, i + 1, Seq::empty()))
                == vecs(old_r) + emit(old_cur.push(c)) + delim_pieces_from(s@, i + 1, Seq::empty()));
        } else {
            cur.push(c);
        }
        i = i + 1;
    }
    let ghost old_r = r@;
    if cur.len() > 0 {
        let piece = cur;
        r.push(piece);
        assert(vecs(r@) =~= vecs(old_r) + emit(piece@));
    } else {
        assert(vecs(r@) =~= vecs(r@) + emit(cur@));
    }
    r
}

fn exec_run_end(s: &[char], i: usize, c: char) -> (r: usize)
    requires
        i <= s@.len(),
    ensures
        r as int == run_end(s@, i as int, c),
{
    let mut j = i;
    while j < s.len() && s[j] == c
        invariant
            i <= j <= s@.len(),
            run_end(s@, j as int, c) == run_end(s@, i as int, c),
        decreases s@.len() - j,
    {
        j = j + 1;
    }
    j
}

/// The end of the ellipsis that starts at `i`, if one does.
pub fn exec_ellipsis_at(s: &[char], i: usize) -> (r: Option<usize>)
    ensures
        oi(r) == ellipsis_at(s@, i as int),
{
    if i >= s.len() {
        None
    } else if s[i] == '…' {
        Some(exec_run_end(s, i, '…'))
    } else if s[i] == '・' && i + 1 < s.len() && s[i + 1] == '・' {
        Some(exec_run_end(s, i, '・'))
    } else if s[i] == '.' && i + 1 < s.len() && s[i + 1] == '.' {
        Some(exec_run_end(s, i, '.'))
    } else {
        None
    }
}

/// The pieces of `s` cut after each ellipsis.
pub fn exec_ellipsis_pieces(s: &[char]) -> (r: Vec<Vec<char>>)
    ensures
        vecs(r@) == ellipsis_pieces(s@),
{
    let mut r: Vec<Vec<char>> = Vec::new();
    let mut start: usize = 0;
    let mut pos: usize = 0;
    while pos < s.len()
        invariant
            start <= pos <= s@.len(),
            vecs(r@) + ellipsis_pieces_from(s@, start as int, pos as int) == ellipsis_pieces(s@),
        decreases s@.len() - pos,
    {
        proof {
            lemma_ellipsis_at(s@, pos as int);
        }
        match exec_ellipsis_at(s, pos) {
            Some(e) => {
                let ghost old_r = r@;
                let piece = copy_range(s, start, e);
                r.push(piece);
                assert(vecs(r@) =~= vecs(old_r) + seq![s@.subrange(start as int, e as int)]);
                assert(vecs(old_r) + (seq![s@.subrange(start as int, e as int)]
                    + ellipsis_pieces_from(s@, e as int, e as int)) == vecs(old_r) + seq![
                    s@.subrange(start as int, e as int),
                ] + ellipsis_pieces_from(s@, e as int, e as int));
                start = e;
                pos = e;
            },
            None => {
                pos = pos + 1;
            },
        }
    }
    let ghost old_r = r@;
    if start < s.len() {
        let piece = copy_range(s, start, s.len());
        r.push(piece);
        assert(vecs(r@) =~= vecs(old_r) + seq![s@.subrange(start as int, s@.len() as int)]);
    } else {
        assert(vecs(r@) =~= vecs(r@) + Seq::<Seq<char>>::empty());
    }
    r
}

pub proof fn lemma_split_each_append(a: Seq<Seq<char>>, b: Seq<Seq<char>>)
    ensures
        split_each(a + b) == split_each(a) + split_each(b),
    decreases a.len(),
{
    if a.len() == 0 {
        assert(a + b =~= b);
    } else {
        lemma_split_each_append(a.drop_first(), b);
        assert((a + b).drop_first() =~= a.drop_first() + b);
    }
}

/// The speech segments of `s` as character vectors.
pub fn exec_punct_split(s: &[char]) -> (r: Vec<Vec<char>>)
    ensures
        vecs(r@) == punct_split(s@),
{
    let pieces = delim_pieces(s);
    let mut r: Vec<Vec<char>> = Vec::new();
    let mut i: usize = 0;
    while i < pieces.len()
        invariant
            i <= pieces@.len(),
            vecs(pieces@) == delim_pieces_from(s@, 0, Seq::empty()),
            vecs(r@) == split_each(vecs(pieces@).take(i as int)),
        decreases pieces@.len() - i,
    {
        let sub = exec_ellipsis_pieces(pieces[i].as_slice());
        let mut j: usize = 0;
        let ghost base = r@;
        while j < sub.len()
            invariant
                j <= sub@.len(),
                vecs(r@) == vecs(base) + vecs(sub@).take(j as int),
            decreases sub@.len() - j,
        {
            let ghost before = r@;
            r.push(copy_range(sub[j].as_slice(), 0, sub[j].len()));
            assert(sub@[j as int]@.subrange(0, sub@[j as int]@.len() as int) =~= sub@[j as int]@);
            assert(vecs(r@) =~= vecs(before).push(sub@[j as int]@));
            assert(vecs(sub@).take(j + 1) =~= vecs(sub@).take(j as int).push(sub@[j as int]@));
            j = j + 1;
        }
        proof {
            assert(vecs(sub@).take(sub@.len() as int) =~= vecs(sub@));
            let ps = vecs(pieces@);
            assert(ps.take(i + 1) =~= ps.take(i as int) + seq![ps[i as int]]);
            lemma_split_each_append(ps.take(i as int), seq![ps[i as int]]);
            assert(seq![ps[i as int]].drop_first() =~= Seq::<Seq<char>>::empty());
            assert(split_each(seq![ps[i as int]]) =~= ellipsis_pieces(ps[i as int]) + split_each(
                Seq::<Seq<char>>::empty(),
            ));
        }
        i = i + 1;
    }
    assert(vecs(pieces@).take(pieces@.len() as int) =~= vecs(pieces@));
    r
}

/// Whether some ellipsis occurs in `s`.
pub fn exec_has_ellipsis(s: &[char]) -> (r: bool)
    ensures
        r == has_ellipsis(s@),
{
    let mut i: usize = 0;
    while i < s.len()
        invariant
            i <= s@.len(),
            forall|j: int| 0 <= j < i ==> #[trigger] ellipsis_at(s@, j) is None,
        decreases s@.len() - i,
    {
        if exec_ellipsis_at(s, i).is_some() {
            return true;
        }
        i = i + 1;
    }
    false
}

fn all_equal(s: &[char], c: char) -> (r: bool)
    ensures
        r == forall|i: int| 0 <= i < s@.len() ==> s@[i] == c,
{
    let mut i: usize = 0;
    while i < s.len()
        invariant
            i <= s@.len(),
            forall|j: int| 0 <= j < i ==> s@[j] == c,
        decreases s@.len() - i,
    {
        if s[i] != c {
            return false;
        }
        i = i + 1;
    }
    true
}

/// Whether `s` is nothing but one ellipsis.
pub fn exec_is_ellipsis_text(s: &[char]) -> (r: bool)
    ensures
        r == is_ellipsis_text(s@),
{
    s.len() > 0 && (all_equal(s, '…') || (s.len() >= 2 && all_equal(s, '・')) || (s.len() >= 2
        && all_equal(s, '.')))
}

/// The pieces joined together, in order.
pub open spec fn concat(ps: Seq<Seq<char>>) -> Seq<char>
    decreases ps.len(),
{
    if ps.len() == 0 {
        Seq::empty()
    } else {
        ps[0] + concat(ps.drop_first())
    }
}

/// The text without its NUL markers.
pub open spec fn without_markers(s: Seq<char>) -> Seq<char>
    decreases s.len(),
{
    if s.len() == 0 {
        Seq::empty()
    } else if is_marker(s[0]) {
        without_markers(s.drop_first())
    } else {
        seq![s[0]] + without_markers(s.drop_first())
    }
}

pub proof fn lemma_concat_append(a: Seq<Seq<char>>, b: Seq<Seq<char>>)
    ensures
        concat(a + b) == concat(a) + concat(b),
    decreases a.len(),
{
    if a.len() == 0 {
        assert(a + b =~= b);
    } else {
        lemma_concat_append(a.drop_first(), b);
        assert((a + b).drop_first() =~= a.drop_first() + b);
        assert((a + b)[0] == a[0]);
        assert(a[0] + (concat(a.drop_first()) + concat(b)) =~= a[0] + concat(a.drop_first()) + concat(b));
    }
}

pub proof fn lemma_concat_single(x: Seq<char>)
    ensures
        concat(seq![x]) == x,
{
    let one = seq![x];
    assert(one.len() == 1);
    assert(one[0] == x);
    assert(one.drop_first() =~= Seq::<Seq<char>>::empty());
    assert(concat(Seq::<Seq<char>>::empty()) == Seq::<char>::empty());
    assert(x + Seq::<char>::empty() =~= x);
}

pub proof fn lemma_without_markers_len(s: Seq<char>)
    ensures
        without_markers(s).len() <= s.len(),
    decreases s.len(),
{
    if s.len() > 0 {
        lemma_without_markers_len(s.drop_first());
    }
}

proof fn lemma_ellipsis_concat(s: Seq<char>, start: int, pos: int)
    requires
        0 <= start <= pos <= s.len(),
    ensures
        concat(ellipsis_pieces_from(s, start, pos)) == s.subrange(start, s.len() as int),
    decreases s.len() - pos,
{
    if pos >= s.len() {
        if start < s.len() {
            lemma_concat_single(s.subrange(start, s.len() as int));
        } else {
            assert(s.subrange(start, s.len() as int) =~= Seq::<char>::empty());
        }
    } else {
        lemma_ellipsis_at(s, pos);
        match ellipsis_at(s, pos) {
            Some(e) => {
                lemma_ellipsis_concat(s, e, e);
                let head = seq![s.subrange(start, e)];
                let rest = ellipsis_pieces_from(s, e, e);
                lemma_concat_append(head, rest);
                lemma_concat_single(s.subrange(start, e));
                assert(s.subrange(start, e) + s.subrange(e, s.len() as int) =~= s.subrange(
                    start,
                    s.len() as int,
                ));
            },
            None => {
                lemma_ellipsis_concat(s, start, pos + 1);
            },
        }
    }
}

proof fn lemma_split_each_concat(ps: Seq<Seq<char>>)
    ensures
        concat(split_each(ps)) == concat(ps),
    decreases ps.len(),
{
    if ps.len() > 0 {
        lemma_split_each_concat(ps.drop_first());
        lemma_ellipsis_concat(ps[0], 0, 0);
        assert(ps[0].subrange(0, ps[0].len() as int) =~= ps[0]);
        lemma_concat_append(ellipsis_pieces(ps[0]), split_each(ps.drop_first()));
    }
}

proof fn lemma_emit_concat(x: Seq<char>)
    ensures
        concat(emit(x)) == x,
{
    if x.len() > 0 {
        lemma_concat_single(x);
    } else {
        assert(x =~= Seq::<char>::empty());
    }
}

proof fn lemma_delim_concat(s: Seq<char>, i: int, cur: Seq<char>)
    requires
        0 <= i <= s.len(),
    ensures
        concat(delim_pieces_from(s, i, cur)) == cur + without_markers(s.subrange(i, s.len() as int)),
    decreases s.len() - i,
{
    let tail = s.subrange(i, s.len() as int);
    if i >= s.len() {
        lemma_emit_concat(cur);
        assert(tail =~= Seq::<char>::empty());
        assert(cur + Seq::<char>::empty() =~= cur);
    } else {
        assert(tail[0] == s[i]);
        assert(tail.drop_first() =~= s.subrange(i + 1, s.len() as int));
        if is_marker(s[i]) {
            lemma_delim_concat(s, i + 1, Seq::empty());
            lemma_concat_append(emit(cur), delim_pieces_from(s, i + 1, Seq::empty()));
            lemma_emit_concat(cur);
            assert(Seq::<char>::empty() + without_markers(s.subrange(i + 1, s.len() as int))
                =~= without_markers(s.subrange(i + 1, s.len() as int)));
        } else if is_delim(s[i]) {
            lemma_delim_concat(s, i + 1, Seq::empty());
            lemma_concat_append(emit(cur.push(s[i])), delim_pieces_from(s, i + 1, Seq::empty()));
            lemma_emit_concat(cur.push(s[i]));
            assert(Seq::<char>::empty() + without_markers(s.subrange(i + 1, s.len() as int))
                =~= without_markers(s.subrange(i + 1, s.len() as int)));
            assert(cur.push(s[i]) + without_markers(s.subrange(i + 1, s.len() as int)) =~= cur + (seq![
                s[i],
            ] + without_markers(s.subrange(i + 1, s.len() as int))));
        } else {
            lemma_delim_concat(s, i + 1, cur.push(s[i]));
            assert(cur.push(s[i]) + without_markers(s.subrange(i + 1, s.len() as int)) =~= cur + (seq![
                s[i],
            ] + without_markers(s.subrange(i + 1, s.len() as int))));
        }
    }
}

/// Splitting into speech segments loses and duplicates nothing: the segments, joined in
/// order, give back the text without its NUL markers.
pub proof fn punct_split_concat(s: Seq<char>)
    ensures
        concat(punct_split(s)) == without_markers(s),
{
    lemma_split_each_concat(delim_pieces_from(s, 0, Seq::empty()));
    lemma_delim_concat(s, 0, Seq::empty());
    assert(s.subrange(0, s.len() as int) =~= s);
    assert(Seq::<char>::empty() + without_markers(s) =~= without_markers(s));
}

proof fn lemma_delim_shift(x: Seq<char>, d: char, y: Seq<char>, k: int, cur: Seq<char>)
    requires
        0 <= k <= y.len(),
    ensures
        delim_pieces_from(x + seq![d] + y, x.len() + 1 + k, cur) == delim_pieces_from(y, k, cur),
    decreases y.len() - k,
{
    let s = x + seq![d] + y;
    if k < y.len() {
        assert(s[x.len() + 1 + k] == y[k]);
        lemma_delim_shift(x, d, y, k + 1, Seq::empty());
        lemma_delim_shift(x, d, y, k + 1, cur.push(y[k]));
    }
}

proof fn lemma_delim_prefix(x: Seq<char>, d: char, y: Seq<char>, i: int, cur: Seq<char>)
    requires
        0 <= i <= x.len(),
        d == '！' || d == '!' || d == '?' || d == '？' || d == '。',
    ensures
        delim_pieces_from(x + seq![d] + y, i, cur) == delim_pieces_from(x + seq![d], i, cur)
            + delim_pieces_from(y, 0, Seq::empty()),
    decreases x.len() - i,
{
    let s = x + seq![d] + y;
    let u = x + seq![d];
    assert(s[i] == u[i]);
    if i == x.len() {
        assert(u[i] == d);
        lemma_delim_shift(x, d, y, 0, Seq::empty());
        assert(delim_pieces_from(u, i + 1, Seq::empty()) == emit(Seq::<char>::empty()));
        assert(emit(Seq::<char>::empty()) =~= Seq::<Seq<char>>::empty());
        assert(emit(cur.push(d)) + Seq::<Seq<char>>::empty() =~= emit(cur.push(d)));
    } else {
        lemma_delim_prefix(x, d, y, i + 1, Seq::empty());
        lemma_delim_prefix(x, d, y, i + 1, cur.push(s[i]));
        let rest = delim_pieces_from(y, 0, Seq::empty());
        let a = delim_pieces_from(u, i + 1, Seq::empty());
        assert(emit(cur) + (a + rest) =~= (emit(cur) + a) + rest);
        assert(emit(cur.push(s[i])) + (a + rest) =~= (emit(cur.push(s[i])) + a) + rest);
    }
}

/// Speech is cut just after every sentence-ending mark `！ ! ? ？ 。`: the segments of a text
/// with such a mark are the segments of the text up to and including the mark, followed by
/// the segments of what follows it.
pub proof fn cut_after_sentence_marks(x: Seq<char>, d: char, y: Seq<char>)
    requires
        d == '！' || d == '!' || d == '?' || d == '？' || d == '。',
    ensures
        punct_split(x + seq![d] + y) == punct_split(x + seq![d]) + punct_split(y),
{
    lemma_delim_prefix(x, d, y, 0, Seq::empty());
    lemma_split_each_append(
        delim_pieces_from(x + seq![d], 0, Seq::empty()),
        delim_pieces_from(y, 0, Seq::empty()),
    );
}

} // verus!
