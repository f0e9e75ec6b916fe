use vstd::prelude::*;
use crate::text::copy_range;
use crate::tags::oi;

verus! {

/// `\![quicksection,`
pub open spec fn qs_head() -> Seq<char> {
    seq!['\\', '!', '[', 'q', 'u', 'i', 'c', 'k', 's', 'e', 'c', 't', 'i', 'o', 'n', ',']
}

/// `\![quicksection,1]`
pub open spec fn qs_on_one() -> Seq<char> {
    qs_head() + seq!['1', ']']
}

/// `\![quicksection,true]`
pub open spec fn qs_on_true() -> Seq<char> {
    qs_head() + seq!['t', 'r', 'u', 'e', ']']
}

/// `\![quicksection,0]`
pub open spec fn qs_off_zero() -> Seq<char> {
    qs_head() + seq!['0', ']']
}

/// `\![quicksection,false]`
pub open spec fn qs_off_false() -> Seq<char> {
    qs_head() + seq!['f', 'a', 'l', 's', 'e', ']']
}

/// `\_q`, which both opens and closes a quick section.
pub open spec fn qs_toggle() -> Seq<char> {
    seq!['\\', '_', 'q']
}

/// `pat` occurs in `s` at index `i`.
pub open spec fn occurs_at(s: Seq<char>, pat: Seq<char>, i: int) -> bool {
    0 <= i && i + pat.len() <= s.len() && s.subrange(i, i + pat.len()) == pat
}

/// The first index at or after `i` where `pat` occurs in `s`.
pub open spec fn find_from(s: Seq<char>, pat: Seq<char>, i: int) -> Option<int>
    decreases s.len() - i,
{
    if i < 0 || i >= s.len() || i + pat.len() > s.len() {
        None
    } else if s.subrange(i, i + pat.len()) == pat {
        Some(i)
    } else {
        find_from(s, pat, i + 1)
    }
}

pub proof fn lemma_find_from(s: Seq<char>, pat: Seq<char>, i: int)
    ensures
        find_from(s, pat, i) matches Some(j) ==> 0 <= i <= j && j + pat.len() <= s.len(),
    decreases s.len() - i,
{
    if i < 0 || i >= s.len() || i + pat.len() > s.len() {
    } else if s.subrange(i, i + pat.len()) == pat {
    } else {
        lemma_find_from(s, pat, i + 1);
    }
}

/// Of the candidates (index, tag length), the one found earliest in the text; a later
/// candidate replaces the current one only when it starts strictly before it.
pub open spec fn earliest_of(cands: Seq<(Option<int>, int)>) -> Option<(int, int)>
    decreases cands.len(),
{
    if cands.len() == 0 {
        None
    } else {
        let best = earliest_of(cands.drop_last());
        match cands.last().0 {
            Some(j) => match best {
                Some((i, l)) => if j < i {
                    Some((j, cands.last().1))
                } else {
                    best
                },
                None => Some((j, cands.last().1)),
            },
            None => best,
        }
    }
}

/// A pair held as machine integers, seen as integers.
pub open spec fn oi2(o: Option<(usize, usize)>) -> Option<(int, int)> {
    match o {
        Some(x) => Some((x.0 as int, x.1 as int)),
        None => None,
    }
}

/// Where the first quick section opens in `s`, and the length of the opening tag.
pub open spec fn start_point(s: Seq<char>) -> Option<(int, int)> {
    earliest_of(
        seq![
            (find_from(s, qs_on_one(), 0), qs_on_one().len() as int),
            (find_from(s, qs_on_true(), 0), qs_on_true().len() as int),
            (find_from(s, qs_toggle(), 0), qs_toggle().len() as int),
        ],
    )
}

/// Where the first quick section closes in `s`, and the length of the closing tag.
pub open spec fn end_point(s: Seq<char>) -> Option<(int, int)> {
    earliest_of(
        seq![
            (find_from(s, qs_off_zero(), 0), qs_off_zero().len() as int),
            (find_from(s, qs_off_false(), 0), qs_off_false().len() as int),
            (find_from(s, qs_toggle(), 0), qs_toggle().len() as int),
        ],
    )
}

pub proof fn lemma_earliest_of(s: Seq<char>, cands: Seq<(Option<int>, int)>)
    requires
        forall|k: int|
            0 <= k < cands.len() ==> (#[trigger] cands[k].0 matches Some(j) ==> 0 <= j && j
                + cands[k].1 <= s.len() && cands[k].1 >= 1),
    ensures
        earliest_of(cands) matches Some((i, l)) ==> 0 <= i && i + l <= s.len() && l >= 1,
    decreases cands.len(),
{
    if cands.len() > 0 {
        assert forall|k: int| 0 <= k < cands.drop_last().len() implies (
        #[trigger] cands.drop_last()[k].0 matches Some(j) ==> 0 <= j && j + cands.drop_last()[k].1
            <= s.len() && cands.drop_last()[k].1 >= 1) by {
            assert(cands.drop_last()[k] == cands[k]);
        }
        lemma_earliest_of(s, cands.drop_last());
        assert(cands.last() == cands[cands.len() - 1]);
    }
}

pub proof fn lemma_points(s: Seq<char>)
    ensures
        start_point(s) matches Some((i, l)) ==> 0 <= i && i + l <= s.len() && l >= 1,
        end_point(s) matches Some((i, l)) ==> 0 <= i && i + l <= s.len() && l >= 1,
{
    lemma_find_from(s, qs_on_one(), 0);
    lemma_find_from(s, qs_on_true(), 0);
    lemma_find_from(s, qs_toggle(), 0);
    lemma_find_from(s, qs_off_zero(), 0);
    lemma_find_from(s, qs_off_false(), 0);
    lemma_earliest_of(
        s,
        seq![
            (find_from(s, qs_on_one(), 0), qs_on_one().len() as int),
            (find_from(s, qs_on_true(), 0), qs_on_true().len() as int),
            (find_from(s, qs_toggle(), 0), qs_toggle().len() as int),
        ],
    );
    lemma_earliest_of(
        s,
        seq![
            (find_from(s, qs_off_zero(), 0), qs_off_zero().len() as int),
            (find_from(s, qs_off_false(), 0), qs_off_false().len() as int),
            (find_from(s, qs_toggle(), 0), qs_toggle().len() as int),
        ],
    );
}

/// The text with its quick sections deleted, tags and contents alike; a quick section that
/// is never closed runs to the end of the text. `in_qs` says whether `s` starts inside one.
pub open spec fn without_quick_sections(s: Seq<char>, in_qs: bool) -> Seq<char>
    decreases s.len(),
{
    if !in_qs {
        match start_point(s) {
            Some((i, l)) => {
                proof {
                    lemma_points(s);
                }
                s.subrange(0, i) + without_quick_sections(s.subrange(i + l, s.len() as int), true)
            },
            None => s,
        }
    } else {
        match end_point(s) {
            Some((i, l)) => {
                proof {
                    lemma_points(s);
                }
                without_quick_sections(s.subrange(i + l, s.len() as int), false)
            },
            None => Seq::empty(),
        }
    }
}

/// The length of the quick-section tag at `p`, if one starts there.
pub open spec fn qs_tag_at(s: Seq<char>, p: int) -> Option<int> {
    if occurs_at(s, qs_toggle(), p) {
        Some(qs_toggle().len() as int)
    } else if occurs_at(s, qs_off_zero(), p) {
        Some(qs_off_zero().len() as int)
    } else if occurs_at(s, qs_on_one(), p) {
        Some(qs_on_one().len() as int)
    } else if occurs_at(s, qs_on_true(), p) {
        Some(qs_on_true().len() as int)
    } else if occurs_at(s, qs_off_false(), p) {
        Some(qs_off_false().len() as int)
    } else {
        None
    }
}

pub proof fn lemma_qs_tag_at(s: Seq<char>, p: int)
    ensures
        qs_tag_at(s, p) matches Some(l) ==> 3 <= l && 0 <= p && p + l <= s.len(),
{
}

/// The text from `p` on with the quick-section tags removed and their contents kept.
pub open spec fn strip_qs_tags_from(s: Seq<char>, p: int) -> Seq<char>
    decreases s.len() - p,
{
    if p < 0 || p >= s.len() {
        Seq::empty()
    } else {
        match qs_tag_at(s, p) {
            Some(l) => {
                proof {
                    lemma_qs_tag_at(s, p);
                }
                strip_qs_tags_from(s, p + l)
            },
            None => seq![s[p]] + strip_qs_tags_from(s, p + 1),
        }
    }
}

fn exec_qs_on_one() -> (r: Vec<char>)
    ensures
        r@ == qs_on_one(),
{
    let r = vec!['\\', '!', '[', 'q', 'u', 'i', 'c', 'k', 's', 'e', 'c', 't', 'i', 'o', 'n', ',', '1', ']'];
    assert(r@ =~= qs_on_one());
    r
}

fn exec_qs_on_true() -> (r: Vec<char>)
    ensures
        r@ == qs_on_true(),
{
    let r = vec![
        '\\', '!', '[', 'q', 'u', 'i', 'c', 'k', 's', 'e', 'c', 't', 'i', 'o', 'n', ',', 't', 'r', 'u',
        'e', ']',
    ];
    assert(r@ =~= qs_on_true());
    r
}

fn exec_qs_off_zero() -> (r: Vec<char>)
    ensures
        r@ == qs_off_zero(),
{
    let r = vec!['\\', '!', '[', 'q', 'u', 'i', 'c', 'k', 's', 'e', 'c', 't', 'i', 'o', 'n', ',', '0', ']'];
    assert(r@ =~= qs_off_zero());
    r
}

fn exec_qs_off_false() -> (r: Vec<char>)
    ensures
        r@ == qs_off_false(),
{
    let r = vec![
        '\\', '!', '[', 'q', 'u', 'i', 'c', 'k', 's', 'e', 'c', 't', 'i', 'o', 'n', ',', 'f', 'a', 'l',
        's', 'e', ']',
    ];
    assert(r@ =~= qs_off_false());
    r
}

fn exec_qs_toggle() -> (r: Vec<char>)
    ensures
        r@ == qs_toggle(),
{
    let r = vec!['\\', '_', 'q'];
    assert(r@ =~= qs_toggle());
    r
}

/// Whether `pat` occurs in `s` at `i`.
pub(crate) fn exec_occurs_at(s: &[char], pat: &[char], i: usize) -> (r: bool)
    ensures
        r == occurs_at(s@, pat@, i as int),
{
    if i > s.len() || pat.len() > s.len() - i {
        return false;
    }
    let n = s.len();
    let mut k: usize = 0;
    while k < pat.len()
        invariant
            n == s@.len(),
            i + pat@.len() <= s@.len(),
            k <= pat@.len(),
            forall|t: int| 0 <= t < k ==> s@[i + t] == pat@[t],
        decreases pat@.len() - k,
    {
        assert(i + k < s@.len());
        if s[i + k] != pat[k] {
            assert(s@.subrange(i as int, i + pat@.len())[k as int] != pat@[k as int]);
            return false;
        }
        k = k + 1;
    }
    assert(s@.subrange(i as int, i + pat@.len()) =~= pat@);
    true
}

/// The first index where `pat` occurs in `s`.
pub(crate) fn exec_find(s: &[char], pat: &[char]) -> (r: Option<usize>)
    ensures
        oi(r) == find_from(s@, pat@, 0),
{
    let mut i: usize = 0;
    while i < s.len()
        invariant
            find_from(s@, pat@, i as int) == find_from(s@, pat@, 0),
        decreases s@.len() - i,
    {
        if pat.len() > s.len() - i {
            return None;
        }
        if exec_occurs_at(s, pat, i) {
            return Some(i);
        }
        i = i + 1;
    }
    None
}

/// The candidate at `x`, if any, replaces `best` when it starts strictly before it.
fn take_earlier(best: Option<(usize, usize)>, x: Option<usize>, l: usize) -> (r: Option<(usize, usize)>)
    ensures
        oi2(r) == (match oi(x) {
            Some(j) => match oi2(best) {
                Some((i, bl)) => if j < i {
                    Some((j, l as int))
                } else {
                    oi2(best)
                },
                None => Some((j, l as int)),
            },
            None => oi2(best),
        }),
{
    match x {
        Some(j) => match best {
            Some((i, _)) => if j < i {
                Some((j, l))
            } else {
                best
            },
            None => Some((j, l)),
        },
        None => best,
    }
}

/// The earliest of three candidate tags, as `earliest_of` decides.
fn exec_earliest3(
    a: Option<usize>,
    la: usize,
    b: Option<usize>,
    lb: usize,
    c: Option<usize>,
    lc: usize,
) -> (r: Option<(usize, usize)>)
    ensures
        oi2(r) == earliest_of(seq![(oi(a), la as int), (oi(b), lb as int), (oi(c), lc as int)]),
{
    let ghost c3 = seq![(oi(a), la as int), (oi(b), lb as int), (oi(c), lc as int)];
    let ghost c2 = seq![(oi(a), la as int), (oi(b), lb as int)];
    let ghost c1 = seq![(oi(a), la as int)];
    let ghost c0 = Seq::<(Option<int>, int)>::empty();
    assert(c3.drop_last() =~= c2);
    assert(c2.drop_last() =~= c1);
    assert(c1.drop_last() =~= c0);
    assert(c3.last() == (oi(c), lc as int));
    assert(c2.last() == (oi(b), lb as int));
    assert(c1.last() == (oi(a), la as int));
    assert(earliest_of(c0) is None);
    let best = take_earlier(None, a, la);
    assert(oi2(best) == earliest_of(c1));
    let best = take_earlier(best, b, lb);
    assert(oi2(best) == earliest_of(c2));
    let best = take_earlier(best, c, lc);
    assert(oi2(best) == earliest_of(c3));
    best
}

/// The text without its quick sections, as characters.
pub fn exec_without_quick_sections(src: &[char]) -> (r: Vec<char>)
    ensures
        r@ == without_quick_sections(src@, false),
{
    let on1 = exec_qs_on_one();
    let ont = exec_qs_on_true();
    let off0 = exec_qs_off_zero();
    let offf = exec_qs_off_false();
    let tog = exec_qs_toggle();
    let mut cur: Vec<char> = copy_range(src, 0, src.len());
    assert(src@.subrange(0, src@.len() as int) =~= src@);
    let mut result: Vec<char> = Vec::new();
    let mut in_qs = false;
    loop
        invariant
            on1@ == qs_on_one(),
            ont@ == qs_on_true(),
            off0@ == qs_off_zero(),
            offf@ == qs_off_false(),
            tog@ == qs_toggle(),
            result@ + without_quick_sections(cur@, in_qs) == without_quick_sections(src@, false),
        decreases cur@.len(), if in_qs { 0int } else { 1int },
    {
        proof {
            lemma_points(cur@);
            lemma_find_from(cur@, qs_on_one(), 0);
            lemma_find_from(cur@, qs_on_true(), 0);
            lemma_find_from(cur@, qs_off_zero(), 0);
            lemma_find_from(cur@, qs_off_false(), 0);
            lemma_find_from(cur@, qs_toggle(), 0);
        }
        if !in_qs {
            let a = exec_find(cur.as_slice(), on1.as_slice());
            let b = exec_find(cur.as_slice(), ont.as_slice());
            let c = exec_find(cur.as_slice(), tog.as_slice());
            match exec_earliest3(a, on1.len(), b, ont.len(), c, tog.len()) {
                Some((i, l)) => {
                    assert(seq![
                        (oi(a), on1@.len() as int),
                        (oi(b), ont@.len() as int),
                        (oi(c), tog@.len() as int),
                    ] =~= seq![
                        (find_from(cur@, qs_on_one(), 0), qs_on_one().len() as int),
                        (find_from(cur@, qs_on_true(), 0), qs_on_true().len() as int),
                        (find_from(cur@, qs_toggle(), 0), qs_toggle().len() as int),
                    ]);
                    assert(start_point(cur@) == Some((i as int, l as int)));
                    assert(i + l <= cur@.len());
                    assert(cur@.len() == cur.len());
                    let part = copy_range(cur.as_slice(), 0, i);
                    let ghost old_res = result@;
                    let ghost old_cur = cur@;
                    crate::text::append_chars(&mut result, part.as_slice());
                    cur = copy_range(cur.as_slice(), i + l, cur.len());
                    in_qs = true;
                    assert(old_res + (old_cur.subrange(0, i as int) + without_quick_sections(cur@, true))
                        =~= result@ + without_quick_sections(cur@, true));
                },
                None => {
                    let ghost old_res = result@;
                    crate::text::append_chars(&mut result, cur.as_slice());
                    return result;
                },
            }
        } else {
            let a = exec_find(cur.as_slice(), off0.as_slice());
            let b = exec_find(cur.as_slice(), offf.as_slice());
            let c = exec_find(cur.as_slice(), tog.as_slice());
            match exec_earliest3(a, off0.len(), b, offf.len(), c, tog.len()) {
                Some((i, l)) => {
                    assert(seq![
                        (oi(a), off0@.len() as int),
                        (oi(b), offf@.len() as int),
                        (oi(c), tog@.len() as int),
                    ] =~= seq![
                        (find_from(cur@, qs_off_zero(), 0), qs_off_zero().len() as int),
                        (find_from(cur@, qs_off_false(), 0), qs_off_false().len() as int),
                        (find_from(cur@, qs_toggle(), 0), qs_toggle().len() as int),
                    ]);
                    assert(end_point(cur@) == Some((i as int, l as int)));
                    proof {
                        lemma_points(cur@);
                    }
                    assert(i + l <= cur@.len());
                    assert(cur@.len() == cur.len());
                    cur = copy_range(cur.as_slice(), i + l, cur.len());
                    in_qs = false;
                },
                None => {
                    assert(result@ + Seq::<char>::empty() =~= result@);
                    return result;
                },
            }
        }
    }
}

fn exec_qs_tag_at(
    s: &[char],
    p: usize,
    on1: &Vec<char>,
    ont: &Vec<char>,
    off0: &Vec<char>,
    offf: &Vec<char>,
    tog: &Vec<char>,
) -> (r: Option<usize>)
    requires
        on1@ == qs_on_one(),
        ont@ == qs_on_true(),
        off0@ == qs_off_zero(),
        offf@ == qs_off_false(),
        tog@ == qs_toggle(),
    ensures
        oi(r) == qs_tag_at(s@, p as int),
{
    if exec_occurs_at(s, tog.as_slice(), p) {
        Some(tog.len())
    } else if exec_occurs_at(s, off0.as_slice(), p) {
        Some(off0.len())
    } else if exec_occurs_at(s, on1.as_slice(), p) {
        Some(on1.len())
    } else if exec_occurs_at(s, ont.as_slice(), p) {
        Some(ont.len())
    } else if exec_occurs_at(s, offf.as_slice(), p) {
        Some(offf.len())
    } else {
        None
    }
}

/// The text with the quick-section tags removed and their contents kept, as characters.
pub fn exec_strip_qs_tags(s: &[char]) -> (r: Vec<char>)
    ensures
        r@ == strip_qs_tags_from(s@, 0),
{
    let on1 = exec_qs_on_one();
    let ont = exec_qs_on_true();
    let off0 = exec_qs_off_zero();
    let offf = exec_qs_off_false();
    let tog = exec_qs_toggle();
    let mut r: Vec<char> = Vec::new();
    let mut p: usize = 0;
    while p < s.len()
        invariant
            p <= s@.len(),
            on1@ == qs_on_one(),
            ont@ == qs_on_true(),
            off0@ == qs_off_zero(),
            offf@ == qs_off_false(),
            tog@ == qs_toggle(),
            r@ + strip_qs_tags_from(s@, p as int) == strip_qs_tags_from(s@, 0),
        decreases s@.len() - p,
    {
        proof {
            lemma_qs_tag_at(s@, p as int);
        }
        match exec_qs_tag_at(s, p, &on1, &ont, &off0, &offf, &tog) {
            Some(l) => {
                p = p + l;
            },
            None => {
                let ghost old_r = r@;
                r.push(s[p]);
                assert(old_r + (seq![s@[p as int]] + strip_qs_tags_from(s@, p + 1)) =~= r@
                    + strip_qs_tags_from(s@, p + 1));
                p = p + 1;
            },
        }
    }
    assert(r@ + Seq::<char>::empty() =~= r@);
    r
}

/// No backslash occurs in `s`, so no quick-section tag does either.
pub open spec fn no_backslash(s: Seq<char>) -> bool {
    forall|j: int| 0 <= j < s.len() ==> s[j] != '\\'
}

/// `t` is a tag that opens a quick section: `\![quicksection,1]`, `\![quicksection,true]` or
/// `\_q`.
pub open spec fn is_qs_open(t: Seq<char>) -> bool {
    t == qs_on_one() || t == qs_on_true() || t == qs_toggle()
}

/// `t` is a tag that closes a quick section: `\![quicksection,0]`, `\![quicksection,false]`
/// or `\_q`.
pub open spec fn is_qs_close(t: Seq<char>) -> bool {
    t == qs_off_zero() || t == qs_off_false() || t == qs_toggle()
}

/// An index found by a search lies after `n`, if there is one.
pub open spec fn after(o: Option<int>, n: int) -> bool {
    o matches Some(j) ==> j > n
}

proof fn lemma_tag_chars()
    ensures
        qs_on_one().len() == 18 && qs_on_true().len() == 21 && qs_toggle().len() == 3,
        qs_off_zero().len() == 18 && qs_off_false().len() == 22,
        qs_on_one()[0] == '\\' && qs_on_true()[0] == '\\' && qs_toggle()[0] == '\\',
        qs_off_zero()[0] == '\\' && qs_off_false()[0] == '\\',
        qs_on_one()[1] == '!' && qs_on_true()[1] == '!' && qs_toggle()[1] == '_',
        qs_off_zero()[1] == '!' && qs_off_false()[1] == '!',
        qs_on_one()[16] == '1' && qs_on_true()[16] == 't',
        qs_off_zero()[16] == '0' && qs_off_false()[16] == 'f',
{
}

proof fn lemma_find_skip(s: Seq<char>, pat: Seq<char>, a: int, b: int)
    requires
        0 <= a <= b <= s.len(),
        pat.len() > 0,
        pat[0] == '\\',
        forall|j: int| a <= j < b ==> s[j] != '\\',
    ensures
        find_from(s, pat, a) == find_from(s, pat, b),
    decreases b - a,
{
    if a < b {
        if a + pat.len() <= s.len() {
            assert(s.subrange(a, a + pat.len())[0] == s[a]);
            assert(s.subrange(a, a + pat.len()) != pat);
        }
        lemma_find_skip(s, pat, a + 1, b);
    }
}

proof fn lemma_find_other(s: Seq<char>, n: int, o: Seq<char>, pat: Seq<char>, k: int)
    requires
        0 <= n,
        occurs_at(s, o, n),
        0 <= k < o.len(),
        k < pat.len(),
        pat[k] != o[k],
    ensures
        after(find_from(s, pat, n), n),
{
    if n < s.len() && n + pat.len() <= s.len() {
        assert(s[n + k] == s.subrange(n, n + o.len())[k]);
        assert(s.subrange(n, n + pat.len())[k] == s[n + k]);
        assert(s.subrange(n, n + pat.len()) != pat);
    }
    lemma_find_from(s, pat, n + 1);
}

proof fn lemma_earliest3(a: Option<int>, la: int, b: Option<int>, lb: int, c: Option<int>, lc: int, n: int)
    ensures
        a == Some(n) && after(b, n) && after(c, n) ==> earliest_of(seq![(a, la), (b, lb), (c, lc)]) == Some((n, la)),
        b == Some(n) && after(a, n) && after(c, n) ==> earliest_of(seq![(a, la), (b, lb), (c, lc)]) == Some((n, lb)),
        c == Some(n) && after(a, n) && after(b, n) ==> earliest_of(seq![(a, la), (b, lb), (c, lc)]) == Some((n, lc)),
        a is None && b is None && c is None ==> earliest_of(seq![(a, la), (b, lb), (c, lc)]) is None,
{
    let c3 = seq![(a, la), (b, lb), (c, lc)];
    let c2 = seq![(a, la), (b, lb)];
    let c1 = seq![(a, la)];
    assert(c3.drop_last() =~= c2);
    assert(c2.drop_last() =~= c1);
    assert(c1.drop_last() =~= Seq::<(Option<int>, int)>::empty());
    assert(earliest_of(Seq::<(Option<int>, int)>::empty()) is None);
    assert(c3.last() == (c, lc));
    assert(c2.last() == (b, lb));
    assert(c1.last() == (a, la));
    let e1 = earliest_of(c1);
    assert(e1 == match a {
        Some(j) => Some((j, la)),
        None => None::<(int, int)>,
    });
    let e2 = earliest_of(c2);
    assert(a == Some(n) && after(b, n) ==> e2 == Some((n, la)));
    assert(b == Some(n) && after(a, n) ==> e2 == Some((n, lb)));
    assert(after(a, n) && after(b, n) ==> after(match e2 {
        Some((i, l)) => Some(i),
        None => None,
    }, n));
}

proof fn lemma_open_at(s: Seq<char>, n: int, o: Seq<char>)
    requires
        0 <= n,
        is_qs_open(o),
        occurs_at(s, o, n),
        forall|j: int| 0 <= j < n ==> s[j] != '\\',
    ensures
        start_point(s) == Some((n, o.len() as int)),
{
    lemma_tag_chars();
    let p1 = qs_on_one();
    let p2 = qs_on_true();
    let p3 = qs_toggle();
    lemma_find_skip(s, p1, 0, n);
    lemma_find_skip(s, p2, 0, n);
    lemma_find_skip(s, p3, 0, n);
    if o == p1 {
        lemma_find_other(s, n, o, p2, 16);
        lemma_find_other(s, n, o, p3, 1);
    } else if o == p2 {
        lemma_find_other(s, n, o, p1, 16);
        lemma_find_other(s, n, o, p3, 1);
    } else {
        lemma_find_other(s, n, o, p1, 1);
        lemma_find_other(s, n, o, p2, 1);
    }
    lemma_earliest3(
        find_from(s, p1, 0),
        p1.len() as int,
        find_from(s, p2, 0),
        p2.len() as int,
        find_from(s, p3, 0),
        p3.len() as int,
        n,
    );
}

proof fn lemma_close_at(s: Seq<char>, n: int, c: Seq<char>)
    requires
        0 <= n,
        is_qs_close(c),
        occurs_at(s, c, n),
        forall|j: int| 0 <= j < n ==> s[j] != '\\',
    ensures
        end_point(s) == Some((n, c.len() as int)),
{
    lemma_tag_chars();
    let p1 = qs_off_zero();
    let p2 = qs_off_false();
    let p3 = qs_toggle();
    lemma_find_skip(s, p1, 0, n);
    lemma_find_skip(s, p2, 0, n);
    lemma_find_skip(s, p3, 0, n);
    if c == p1 {
        lemma_find_other(s, n, c, p2, 16);
        lemma_find_other(s, n, c, p3, 1);
    } else if c == p2 {
        lemma_find_other(s, n, c, p1, 16);
        lemma_find_other(s, n, c, p3, 1);
    } else {
        lemma_find_other(s, n, c, p1, 1);
        lemma_find_other(s, n, c, p2, 1);
    }
    lemma_earliest3(
        find_from(s, p1, 0),
        p1.len() as int,
        find_from(s, p2, 0),
        p2.len() as int,
        find_from(s, p3, 0),
        p3.len() as int,
        n,
    );
}

proof fn lemma_no_tags(s: Seq<char>)
    requires
        no_backslash(s),
    ensures
        start_point(s) is None,
        end_point(s) is None,
{
    lemma_tag_chars();
    lemma_find_skip(s, qs_on_one(), 0, s.len() as int);
    lemma_find_skip(s, qs_on_true(), 0, s.len() as int);
    lemma_find_skip(s, qs_toggle(), 0, s.len() as int);
    lemma_find_skip(s, qs_off_zero(), 0, s.len() as int);
    lemma_find_skip(s, qs_off_false(), 0, s.len() as int);
    lemma_earliest3(
        find_from(s, qs_on_one(), 0),
        qs_on_one().len() as int,
        find_from(s, qs_on_true(), 0),
        qs_on_true().len() as int,
        find_from(s, qs_toggle(), 0),
        qs_toggle().len() as int,
        0,
    );
    lemma_earliest3(
        find_from(s, qs_off_zero(), 0),
        qs_off_zero().len() as int,
        find_from(s, qs_off_false(), 0),
        qs_off_false().len() as int,
        find_from(s, qs_toggle(), 0),
        qs_toggle().len() as int,
        0,
    );
}

/// A quick section is deleted, tags and contents alike, whichever of its opening tags
/// (`\![quicksection,1]`, `\![quicksection,true]`, `\_q`) and closing tags
/// (`\![quicksection,0]`, `\![quicksection,false]`, `\_q`) it has; a quick section that is
/// never closed runs to the end of the text. The text around it (here without tags) stays.
pub proof fn quick_section_deleted(x: Seq<char>, o: Seq<char>, y: Seq<char>, c: Seq<char>, z: Seq<char>)
    requires
        is_qs_open(o),
        is_qs_close(c),
        no_backslash(x),
        no_backslash(y),
        no_backslash(z),
    ensures
        without_quick_sections(x + o + y + c + z, false) == x + z,
        without_quick_sections(x + o + y, false) == x,
{
    lemma_tag_chars();
    let n = x.len() as int;
    let s = x + o + y + c + z;
    assert(s.subrange(n, n + o.len()) =~= o);
    lemma_open_at(s, n, o);
    lemma_points(s);
    let rest = s.subrange(n + o.len(), s.len() as int);
    assert(rest =~= y + c + z);
    let m = y.len() as int;
    assert(rest.subrange(m, m + c.len()) =~= c);
    lemma_close_at(rest, m, c);
    lemma_points(rest);
    let tail = rest.subrange(m + c.len(), rest.len() as int);
    assert(tail =~= z);
    lemma_no_tags(z);
    assert(s.subrange(0, n) =~= x);
    assert(without_quick_sections(tail, false) == z);
    assert(without_quick_sections(rest, true) == without_quick_sections(tail, false));
    assert(without_quick_sections(s, false) == s.subrange(0, n) + without_quick_sections(rest, true));

    let u = x + o + y;
    assert(u.subrange(n, n + o.len()) =~= o);
    lemma_open_at(u, n, o);
    lemma_points(u);
    let urest = u.subrange(n + o.len(), u.len() as int);
    assert(urest =~= y);
    lemma_no_tags(y);
    assert(u.subrange(0, n) =~= x);
    assert(without_quick_sections(urest, true) == Seq::<char>::empty());
    assert(x + Seq::<char>::empty() =~= x);
}

} // verus!
