use vstd::prelude::*;
use crate::text::{copy_range, append_chars, decimal, push_decimal, all_digits, digits_number, lemma_decimal_digits};
use crate::tags::oi;

verus! {

pub open spec fn is_digit(c: char) -> bool {
    48 <= (c as u32) && (c as u32) <= 57
}

/// The index just after the run of ASCII digits that starts at `i`.
pub open spec fn digit_run_end(s: Seq<char>, i: int) -> int
    decreases s.len() - i,
{
    if 0 <= i < s.len() && is_digit(s[i]) {
        digit_run_end(s, i + 1)
    } else {
        i
    }
}

pub proof fn lemma_digit_run_end(s: Seq<char>, i: int)
    requires
        0 <= i,
    ensures
        i <= digit_run_end(s, i),
        i <= s.len() ==> digit_run_end(s, i) <= s.len(),
        forall|j: int| i <= j < digit_run_end(s, i) ==> is_digit(s[j]),
    decreases s.len() - i,
{
    if 0 <= i < s.len() && is_digit(s[i]) {
        lemma_digit_run_end(s, i + 1);
    }
}

/// The number that a string of ASCII digits writes in decimal.
pub open spec fn digits_value(d: Seq<char>) -> nat
    decreases d.len(),
{
    if d.len() == 0 {
        0
    } else {
        digits_value(d.drop_last()) * 10 + ((d.last() as u32) - 48) as nat
    }
}

/// A character number written in a `\p[n]` tag: its value, or 0 when it does not fit in a
/// `usize`.
pub open spec fn parse_scope(d: Seq<char>) -> int {
    if digits_value(d) <= usize::MAX {
        digits_value(d) as int
    } else {
        0
    }
}

/// The scope-changing tag at `p`, if one starts there: its end and the character number it
/// selects. `\0` and `\h` select 0, `\1` and `\u` select 1, `\p[n]` selects `n`.
pub open spec fn scope_match_at(s: Seq<char>, p: int) -> Option<(int, int)> {
    if !(0 <= p && p + 1 < s.len() && s[p] == '\\') {
        None
    } else {
        let c = s[p + 1];
        if c == '0' || c == 'h' {
            Some((p + 2, 0))
        } else if c == '1' || c == 'u' {
            Some((p + 2, 1))
        } else if c == 'p' && p + 3 < s.len() && s[p + 2] == '[' && is_digit(s[p + 3]) {
            let d = digit_run_end(s, p + 3);
            if d < s.len() && s[d] == ']' {
                Some((d + 1, parse_scope(s.subrange(p + 3, d))))
            } else {
                None
            }
        } else {
            None
        }
    }
}

pub proof fn lemma_scope_match_at(s: Seq<char>, p: int)
    ensures
        scope_match_at(s, p) matches Some((e, sc)) ==> 0 <= p < e <= s.len() && 0 <= sc <= usize::MAX,
{
    if 0 <= p && p + 3 < s.len() {
        lemma_digit_run_end(s, p + 3);
    }
}

/// The first scope-changing tag at or after `p`: its start, end and character number.
pub open spec fn next_scope_from(s: Seq<char>, p: int) -> Option<(int, int, int)>
    decreases s.len() - p,
{
    if p < 0 || p >= s.len() {
        None
    } else {
        match scope_match_at(s, p) {
            Some((e, sc)) => Some((p, e, sc)),
            None => next_scope_from(s, p + 1),
        }
    }
}

pub proof fn lemma_next_scope_from(s: Seq<char>, p: int)
    requires
        0 <= p,
    ensures
        next_scope_from(s, p) matches Some((a, b, sc)) ==> p <= a < b <= s.len() && 0 <= sc
            <= usize::MAX && scope_match_at(s, a) == Some((b, sc)),
        next_scope_from(s, p) is None ==> forall|q: int| p <= q < s.len() ==> #[trigger] scope_match_at(s, q) is None,
    decreases s.len() - p,
{
    if p < s.len() {
        lemma_scope_match_at(s, p);
        if scope_match_at(s, p) is None {
            lemma_next_scope_from(s, p + 1);
        }
    }
}

/// The pieces of `s` between scope-changing tags, each with the character number in force,
/// the first piece starting at `e` with number `sc`.
pub open spec fn dialogs_after(s: Seq<char>, e: int, sc: int) -> Seq<(Seq<char>, int)>
    decreases s.len() - e,
{
    if e < 0 || e > s.len() {
        Seq::empty()
    } else {
        match next_scope_from(s, e) {
            None => seq![(s.subrange(e, s.len() as int), sc)],
            Some((a, b, sc2)) => {
                proof {
                    lemma_next_scope_from(s, e);
                }
                seq![(s.subrange(e, a), sc)] + dialogs_after(s, b, sc2)
            },
        }
    }
}

/// The text split at scope-changing tags into the pieces each character speaks: the text
/// begins with character 0. Empty text gives no pieces.
pub open spec fn local_dialogs(src: Seq<char>) -> Seq<(Seq<char>, int)> {
    if src.len() == 0 {
        Seq::empty()
    } else {
        dialogs_after(seq!['\\', '0'] + src, 2, 0)
    }
}

fn exec_digit_run_end(s: &[char], i: usize) -> (r: usize)
    requires
        i <= s@.len(),
    ensures
        r as int == digit_run_end(s@, i as int),
{
    let mut j = i;
    while j < s.len() && 48 <= (s[j] as u32) && (s[j] as u32) <= 57
        invariant
            i <= j <= s@.len(),
            digit_run_end(s@, j as int) == digit_run_end(s@, i as int),
        decreases s@.len() - j,
    {
        j = j + 1;
    }
    j
}

/// The character number that the digits `s[a..b]` write, or 0 when it overflows.
fn exec_parse_scope(s: &[char], a: usize, b: usize) -> (r: usize)
    requires
        a <= b <= s@.len(),
        forall|j: int| a <= j < b ==> is_digit(s@[j]),
    ensures
        r as int == parse_scope(s@.subrange(a as int, b as int)),
{
    let ghost d = s@.subrange(a as int, b as int);
    let mut v: usize = 0;
    let mut over = false;
    let mut i = a;
    while i < b
        invariant
            a <= i <= b <= s@.len(),
            d == s@.subrange(a as int, b as int),
            forall|j: int| a <= j < b ==> is_digit(s@[j]),
            !over ==> v as int == digits_value(d.take(i - a)),
            over ==> digits_value(d.take(i - a)) > usize::MAX,
        decreases b - i,
    {
        let dig = (s[i] as u32 - 48) as usize;
        proof {
            let t1 = d.take(i - a + 1);
            assert(t1.drop_last() =~= d.take(i - a));
            assert(t1.last() == s@[i as int]);
        }
        if !over {
            if v > (usize::MAX - dig) / 10 {
                over = true;
            } else {
                v = v * 10 + dig;
            }
        }
        i = i + 1;
    }
    assert(d.take(b - a) =~= d);
    if over {
        0
    } else {
        v
    }
}

/// The scope-changing tag at `p`, if one starts there: its end and character number.
fn exec_scope_match_at(s: &[char], p: usize) -> (r: Option<(usize, usize)>)
    ensures
        match r {
            Some(x) => scope_match_at(s@, p as int) == Some((x.0 as int, x.1 as int)),
            None => scope_match_at(s@, p as int) is None,
        },
{
    if !(p < s.len() && p + 1 < s.len() && s[p] == '\\') {
        return None;
    }
    let c = s[p + 1];
    if c == '0' || c == 'h' {
        Some((p + 2, 0))
    } else if c == '1' || c == 'u' {
        Some((p + 2, 1))
    } else if c == 'p' && p + 2 < s.len() && p + 3 < s.len() && s[p + 2] == '[' && 48 <= (s[p
        + 3] as u32) && (s[p + 3] as u32) <= 57 {
        let d = exec_digit_run_end(s, p + 3);
        proof {
            lemma_digit_run_end(s@, p + 3);
        }
        if d < s.len() && s[d] == ']' {
            let sc = exec_parse_scope(s, p + 3, d);
            Some((d + 1, sc))
        } else {
            None
        }
    } else {
        None
    }
}

/// The character pieces of `src`, as character vectors.
pub fn exec_local_dialogs(src: &[char]) -> (r: Vec<(Vec<char>, usize)>)
    ensures
        r@.map_values(|x: (Vec<char>, usize)| (x.0@, x.1 as int)) == local_dialogs(src@),
{
    let mut r: Vec<(Vec<char>, usize)> = Vec::new();
    if src.len() == 0 {
        assert(r@.map_values(|x: (Vec<char>, usize)| (x.0@, x.1 as int)) =~= local_dialogs(src@));
        return r;
    }
    let mut s: Vec<char> = vec!['\\', '0'];
    append_chars(&mut s, src);
    let ghost sv = s@;
    assert(sv == seq!['\\', '0'] + src@);
    let mut e: usize = 2;
    let mut sc: usize = 0;
    let mut p: usize = 2;
    loop
        invariant
            sv == s@,
            2 <= e <= p <= s@.len(),
            forall|q: int| e <= q < p ==> #[trigger] scope_match_at(sv, q) is None,
            next_scope_from(sv, e as int) == next_scope_from(sv, p as int),
            r@.map_values(|x: (Vec<char>, usize)| (x.0@, x.1 as int)) + dialogs_after(
                sv,
                e as int,
                sc as int,
            ) == local_dialogs(src@),
        decreases s@.len() - p,
    {
        let ghost old_r = r@.map_values(|x: (Vec<char>, usize)| (x.0@, x.1 as int));
        if p >= s.len() {
            let piece = copy_range(s.as_slice(), e, s.len());
            r.push((piece, sc));
            assert(r@.map_values(|x: (Vec<char>, usize)| (x.0@, x.1 as int)) =~= old_r + seq![
                (sv.subrange(e as int, sv.len() as int), sc as int),
            ]);
            return r;
        }
        match exec_scope_match_at(s.as_slice(), p) {
            Some((b, sc2)) => {
                proof {
                    lemma_scope_match_at(sv, p as int);
                    lemma_next_scope_from(sv, e as int);
                }
                let piece = copy_range(s.as_slice(), e, p);
                r.push((piece, sc));
                assert(r@.map_values(|x: (Vec<char>, usize)| (x.0@, x.1 as int)) =~= old_r + seq![
                    (sv.subrange(e as int, p as int), sc as int),
                ]);
                assert(old_r + (seq![(sv.subrange(e as int, p as int), sc as int)] + dialogs_after(
                    sv,
                    b as int,
                    sc2 as int,
                )) =~= r@.map_values(|x: (Vec<char>, usize)| (x.0@, x.1 as int)) + dialogs_after(
                    sv,
                    b as int,
                    sc2 as int,
                ));
                e = b;
                sc = sc2;
                p = b;
            },
            None => {
                p = p + 1;
            },
        }
    }
}

/// The tag that switches speech to character `n`: `\0`, `\1`, or `\p[n]`.
pub open spec fn scope_tag(n: int) -> Seq<char> {
    if n == 0 {
        seq!['\\', '0']
    } else if n == 1 {
        seq!['\\', '1']
    } else {
        seq!['\\', 'p', '['] + decimal(n as nat) + seq![']']
    }
}

/// The tag that switches speech to character `n`, as characters.
pub fn exec_scope_tag(n: usize) -> (r: Vec<char>)
    ensures
        r@ == scope_tag(n as int),
{
    if n == 0 {
        vec!['\\', '0']
    } else if n == 1 {
        vec!['\\', '1']
    } else {
        let mut r = vec!['\\', 'p', '['];
        push_decimal(&mut r, n as u128);
        r.push(']');
        r
    }
}

/// The first `]` at or after `i`.
pub open spec fn first_close_from(s: Seq<char>, i: int) -> Option<int>
    decreases s.len() - i,
{
    if i < 0 || i >= s.len() {
        None
    } else if s[i] == ']' {
        Some(i)
    } else {
        first_close_from(s, i + 1)
    }
}

pub proof fn lemma_first_close_from(s: Seq<char>, i: int)
    ensures
        first_close_from(s, i) matches Some(c) ==> 0 <= i <= c < s.len(),
    decreases s.len() - i,
{
    if 0 <= i < s.len() && s[i] != ']' {
        lemma_first_close_from(s, i + 1);
    }
}

/// The end of the line break at `p`, if one starts there: `\n`, with an optional
/// bracketed argument such as `[half]`.
pub open spec fn line_unit_at(s: Seq<char>, p: int) -> Option<int> {
    if !(0 <= p && p + 1 < s.len() && s[p] == '\\' && s[p + 1] == 'n') {
        None
    } else {
        let q = p + 2;
        if q + 1 < s.len() && s[q] == '[' && s[q + 1] != ']' && first_close_from(s, q + 1) is Some {
            Some(first_close_from(s, q + 1)->0 + 1)
        } else {
            Some(q)
        }
    }
}

pub proof fn lemma_line_unit_at(s: Seq<char>, p: int)
    ensures
        line_unit_at(s, p) matches Some(e) ==> 0 <= p < p + 2 <= e <= s.len(),
{
    if 0 <= p {
        lemma_first_close_from(s, p + 3);
    }
}

/// The end of the run of consecutive line breaks that goes on from `e`.
pub open spec fn line_run_from(s: Seq<char>, e: int) -> int
    decreases s.len() - e,
{
    match line_unit_at(s, e) {
        Some(e2) => {
            proof {
                lemma_line_unit_at(s, e);
            }
            line_run_from(s, e2)
        },
        None => e,
    }
}

pub proof fn lemma_line_run_from(s: Seq<char>, e: int)
    requires
        0 <= e <= s.len(),
    ensures
        e <= line_run_from(s, e) <= s.len(),
    decreases s.len() - e,
{
    lemma_line_unit_at(s, e);
    if let Some(e2) = line_unit_at(s, e) {
        lemma_line_run_from(s, e2);
    }
}

/// The text from `p` on with a NUL marker put after each run of line breaks.
pub open spec fn line_marked_from(s: Seq<char>, p: int) -> Seq<char>
    decreases s.len() - p,
{
    if p < 0 || p >= s.len() {
        Seq::empty()
    } else {
        match line_unit_at(s, p) {
            Some(e) => {
                proof {
                    lemma_line_unit_at(s, p);
                    lemma_line_run_from(s, e);
                }
                s.subrange(p, line_run_from(s, e)) + seq!['\0'] + line_marked_from(
                    s,
                    line_run_from(s, e),
                )
            },
            None => seq![s[p]] + line_marked_from(s, p + 1),
        }
    }
}

fn exec_first_close_from(s: &[char], i: usize) -> (r: Option<usize>)
    ensures
        oi(r) == first_close_from(s@, i as int),
{
    let mut j = i;
    while j < s.len()
        invariant
            i <= j,
            first_close_from(s@, j as int) == first_close_from(s@, i as int),
        decreases s@.len() - j,
    {
        if s[j] == ']' {
            return Some(j);
        }
        j = j + 1;
    }
    None
}

fn exec_line_unit_at(s: &[char], p: usize) -> (r: Option<usize>)
    ensures
        oi(r) == line_unit_at(s@, p as int),
{
    if !(p < s.len() && p + 1 < s.len() && s[p] == '\\' && s[p + 1] == 'n') {
        return None;
    }
    let q = p + 2;
    if q < s.len() && q + 1 < s.len() && s[q] == '[' && s[q + 1] != ']' {
        match exec_first_close_from(s, q + 1) {
            Some(c) => {
                proof {
                    lemma_first_close_from(s@, q + 1);
                }
                Some(c + 1)
            },
            None => Some(q),
        }
    } else {
        Some(q)
    }
}

/// The text with a NUL marker put after each run of line breaks, as characters.
pub fn exec_line_marked(s: &[char]) -> (r: Vec<char>)
    ensures
        r@ == line_marked_from(s@, 0),
{
    let mut r: Vec<char> = Vec::new();
    let mut p: usize = 0;
    while p < s.len()
        invariant
            p <= s@.len(),
            r@ + line_marked_from(s@, p as int) == line_marked_from(s@, 0),
        decreases s@.len() - p,
    {
        proof {
            lemma_line_unit_at(s@, p as int);
        }
        let ghost old_r = r@;
        match exec_line_unit_at(s, p) {
            Some(e) => {
                let mut end = e;
                proof {
                    lemma_line_run_from(s@, e as int);
                }
                loop
                    invariant
                        p < end <= s@.len(),
                        line_run_from(s@, end as int) == line_run_from(s@, e as int),
                    ensures
                        p < end <= s@.len(),
                        line_run_from(s@, end as int) == line_run_from(s@, e as int),
                        line_unit_at(s@, end as int) is None,
                    decreases s@.len() - end,
                {
                    proof {
                        lemma_line_unit_at(s@, end as int);
                    }
                    match exec_line_unit_at(s, end) {
                        Some(e2) => {
                            end = e2;
                        },
                        None => {
                            break ;
                        },
                    }
                }
                assert(line_run_from(s@, e as int) == end);
                let piece = copy_range(s, p, end);
                append_chars(&mut r, piece.as_slice());
                r.push('\0');
                assert(old_r + (s@.subrange(p as int, end as int) + seq!['\0'] + line_marked_from(
                    s@,
                    end as int,
                )) =~= r@ + line_marked_from(s@, end as int));
                p = end;
            },
            None => {
                r.push(s[p]);
                assert(old_r + (seq![s@[p as int]] + line_marked_from(s@, p + 1)) =~= r@
                    + line_marked_from(s@, p + 1));
                p = p + 1;
            },
        }
    }
    assert(r@ + Seq::<char>::empty() =~= r@);
    r
}

proof fn lemma_digits_value(d: Seq<char>)
    requires
        all_digits(d),
    ensures
        digits_value(d) == digits_number(d),
    decreases d.len(),
{
    if d.len() > 0 {
        assert(all_digits(d.drop_last())) by {
            assert forall|i: int| 0 <= i < d.drop_last().len() implies '0' <= #[trigger] d.drop_last()[i] <= '9' by {
                assert(d.drop_last()[i] == d[i]);
            }
        }
        lemma_digits_value(d.drop_last());
        assert('0' <= d[d.len() - 1] <= '9');
    }
}

proof fn lemma_run_until(s: Seq<char>, i: int, e: int)
    requires
        0 <= i <= e < s.len(),
        forall|j: int| i <= j < e ==> is_digit(#[trigger] s[j]),
        !is_digit(s[e]),
    ensures
        digit_run_end(s, i) == e,
    decreases e - i,
{
    if i < e {
        lemma_run_until(s, i + 1, e);
    }
}

/// The tag that switches speech to a character reads back as that character's number: the
/// scope tag found at the start of `scope_tag(n)` spans the whole tag and selects `n`.
pub proof fn scope_tag_reads_back(n: int)
    requires
        0 <= n <= usize::MAX,
    ensures
        scope_match_at(scope_tag(n), 0) == Some((scope_tag(n).len() as int, n)),
{
    if n >= 2 {
        let d = decimal(n as nat);
        lemma_decimal_digits(n as nat);
        let s = scope_tag(n);
        let e: int = 3 + d.len() as int;
        assert(s.len() == e + 1);
        assert(s[e] == ']');
        assert forall|j: int| 3 <= j < e implies is_digit(#[trigger] s[j]) by {
            assert(s[j] == d[j - 3]);
            assert('0' <= d[j - 3] <= '9');
        }
        assert(s[3] == d[0]);
        lemma_run_until(s, 3, e);
        assert(s.subrange(3, e) =~= d);
        lemma_digits_value(d);
    }
}

/// The scope-changing tags and the character each selects: at a backslash, `\0` and `\h`
/// select character 0, `\1` and `\u` character 1, and `\p[n]` (one or more ASCII digits
/// closed by `]`) character `n` (0 when `n` does not fit in a `usize`); a backslash followed by
/// anything else starts no scope change.
pub proof fn scope_changes(s: Seq<char>, p: int)
    requires
        0 <= p,
        p + 1 < s.len(),
        s[p] == '\\',
    ensures
        s[p + 1] == '0' || s[p + 1] == 'h' ==> scope_match_at(s, p) == Some((p + 2, 0int)),
        s[p + 1] == '1' || s[p + 1] == 'u' ==> scope_match_at(s, p) == Some((p + 2, 1int)),
        !(s[p + 1] == '0' || s[p + 1] == 'h' || s[p + 1] == '1' || s[p + 1] == 'u' || s[p + 1] == 'p')
            ==> scope_match_at(s, p) is None,
        forall|e: int|
            #![trigger s.subrange(p + 3, e)]
            s[p + 1] == 'p' && p + 3 < e < s.len() && s[p + 2] == '[' && s[e] == ']' && all_digits(
                s.subrange(p + 3, e),
            ) ==> scope_match_at(s, p) == Some(
                (
                    e + 1,
                    if digits_number(s.subrange(p + 3, e)) <= usize::MAX {
                        digits_number(s.subrange(p + 3, e))
                    } else {
                        0
                    },
                ),
            ),
{
    assert forall|e: int|
        #![trigger s.subrange(p + 3, e)]
        s[p + 1] == 'p' && p + 3 < e < s.len() && s[p + 2] == '[' && s[e] == ']' && all_digits(
            s.subrange(p + 3, e),
        ) implies scope_match_at(s, p) == Some(
        (
            e + 1,
            if digits_number(s.subrange(p + 3, e)) <= usize::MAX {
                digits_number(s.subrange(p + 3, e))
            } else {
                0
            },
        ),
    ) by {
        let d = s.subrange(p + 3, e);
        assert forall|j: int| p + 3 <= j < e implies is_digit(#[trigger] s[j]) by {
            assert(s[j] == d[j - (p + 3)]);
        }
        assert(s[p + 3] == d[0]);
        lemma_run_until(s, p + 3, e);
        lemma_digits_value(d);
    }
}

} // verus!
