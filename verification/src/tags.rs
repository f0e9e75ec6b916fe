use vstd::prelude::*;

verus! {

/// `Option<usize>` seen as `Option<int>`.
pub open spec fn oi(o: Option<usize>) -> Option<int> {
    match o {
        Some(x) => Some(x as int),
        None => None,
    }
}

/// A character that may name a Sakura Script command after the backslash.
pub open spec fn is_cmd_char(c: char) -> bool {
    let u = c as u32;
    (97 <= u && u <= 122) || (65 <= u && u <= 90) || (48 <= u && u <= 57) || c == '*' || c == '!'
        || c == '&' || c == '-' || c == '+'
}

/// The first index at or after `i` that holds a double quote.
pub open spec fn first_quote_from(s: Seq<char>, i: int) -> Option<int>
    decreases s.len() - i,
{
    if i < 0 || i >= s.len() {
        None
    } else if s[i] == '"' {
        Some(i)
    } else {
        first_quote_from(s, i + 1)
    }
}

/// Some `]` stands at or after index `i`.
pub open spec fn has_close_from(s: Seq<char>, i: int) -> bool {
    exists|j: int| i <= j < s.len() && 0 <= j && s[j] == ']'
}

pub proof fn lemma_first_quote_from(s: Seq<char>, i: int)
    ensures
        first_quote_from(s, i) matches Some(c) ==> i <= c < s.len() && 0 <= c && s[c] == '"'
            && forall|j: int| i <= j < c ==> s[j] != '"',
        first_quote_from(s, i) is None ==> forall|j: int| 0 <= i <= j < s.len() ==> s[j] != '"',
    decreases s.len() - i,
{
    if i < 0 || i >= s.len() {
    } else if s[i] == '"' {
    } else {
        lemma_first_quote_from(s, i + 1);
    }
}

/// Where the bracketed argument list of a tag ends (just after its `]`), scanning from `q`
/// after at least one character of the list has been consumed. A quoted string protects a
/// `]` inside it only when some `]` follows the closing quote.
pub open spec fn bracket_outer(s: Seq<char>, q: int) -> Option<int>
    decreases s.len() - q,
{
    if q < 0 || q >= s.len() {
        None
    } else if s[q] == ']' {
        Some(q + 1)
    } else if s[q] == '"' && q + 1 < s.len() && s[q + 1] != '"' && first_quote_from(s, q + 2) is Some
        && has_close_from(s, first_quote_from(s, q + 2)->0 + 1) {
        proof {
            lemma_first_quote_from(s, q + 2);
        }
        bracket_outer(s, first_quote_from(s, q + 2)->0 + 1)
    } else {
        bracket_outer(s, q + 1)
    }
}

/// The end of a bracketed argument list whose first character is at `p` (just after `[`).
pub open spec fn bracket_first(s: Seq<char>, p: int) -> Option<int> {
    if 0 <= p < s.len() && s[p] != ']' {
        bracket_outer(s, p)
    } else {
        None
    }
}

/// The number of underscores (at most two) that follow the backslash at `i`.
pub open spec fn underscores(s: Seq<char>, i: int) -> int {
    if i + 1 < s.len() && s[i + 1] == '_' {
        if i + 2 < s.len() && s[i + 2] == '_' {
            2
        } else {
            1
        }
    } else {
        0
    }
}

/// The end of the Sakura Script tag that starts at index `i`, if one does: a backslash,
/// up to two underscores, then either `w` and a digit from 1 to 9, or a command character
/// with an optional bracketed argument list.
pub open spec fn tag_match_at(s: Seq<char>, i: int) -> Option<int> {
    if !(0 <= i < s.len() && s[i] == '\\') {
        None
    } else {
        let k = i + 1 + underscores(s, i);
        if k + 1 < s.len() && s[k] == 'w' && 49 <= (s[k + 1] as u32) && (s[k + 1] as u32) <= 57 {
            Some(k + 2)
        } else if k < s.len() && is_cmd_char(s[k]) {
            if k + 1 < s.len() && s[k + 1] == '[' && bracket_first(s, k + 2) is Some {
                bracket_first(s, k + 2)
            } else {
                Some(k + 1)
            }
        } else {
            None
        }
    }
}

pub proof fn lemma_bracket_outer(s: Seq<char>, q: int)
    ensures
        bracket_outer(s, q) matches Some(e) ==> q < e <= s.len(),
        bracket_outer(s, q) is Some <==> (0 <= q && has_close_from(s, q)),
    decreases s.len() - q,
{
    if q < 0 || q >= s.len() {
    } else if s[q] == ']' {
    } else if s[q] == '"' && q + 1 < s.len() && s[q + 1] != '"' && first_quote_from(s, q + 2) is Some
        && has_close_from(s, first_quote_from(s, q + 2)->0 + 1) {
        lemma_first_quote_from(s, q + 2);
        let c = first_quote_from(s, q + 2)->0;
        lemma_bracket_outer(s, c + 1);
        let j = choose|j: int| c + 1 <= j < s.len() && 0 <= j && s[j] == ']';
        assert(q <= j < s.len() && s[j] == ']');
    } else {
        lemma_bracket_outer(s, q + 1);
        if has_close_from(s, q) {
            let j = choose|j: int| q <= j < s.len() && 0 <= j && s[j] == ']';
            assert(j != q);
            assert(q + 1 <= j < s.len() && s[j] == ']');
        }
    }
}

pub proof fn lemma_tag_match_at(s: Seq<char>, i: int)
    ensures
        tag_match_at(s, i) matches Some(e) ==> 0 <= i < e <= s.len() && e >= i + 2,
{
    let k = i + 1 + underscores(s, i);
    if 0 <= k + 2 {
        lemma_bracket_outer(s, k + 2);
    }
}

/// The text with every Sakura Script tag removed, scanning from index `p`: tags are found
/// leftmost first and do not overlap.
pub open spec fn cleared_from(s: Seq<char>, p: int) -> Seq<char>
    decreases s.len() - p,
{
    if p < 0 || p >= s.len() {
        Seq::empty()
    } else {
        match tag_match_at(s, p) {
            Some(e) => {
                proof {
                    lemma_tag_match_at(s, p);
                }
                cleared_from(s, e)
            },
            None => seq![s[p]] + cleared_from(s, p + 1),
        }
    }
}

/// The text with every Sakura Script tag removed.
pub open spec fn cleared(s: Seq<char>) -> Seq<char> {
    cleared_from(s, 0)
}

/// The spans `(start, end)` of the tags in `s` that start at or after `p`, leftmost first,
/// not overlapping.
pub open spec fn tag_spans_from(s: Seq<char>, p: int) -> Seq<(int, int)>
    decreases s.len() - p,
{
    if p < 0 || p >= s.len() {
        Seq::empty()
    } else {
        match tag_match_at(s, p) {
            Some(e) => {
                proof {
                    lemma_tag_match_at(s, p);
                }
                seq![(p, e)] + tag_spans_from(s, e)
            },
            None => tag_spans_from(s, p + 1),
        }
    }
}

pub open spec fn tag_spans(s: Seq<char>) -> Seq<(int, int)> {
    tag_spans_from(s, 0)
}

/// The first index at or after `i` holding a double quote.
fn exec_first_quote_from(s: &[char], i: usize) -> (r: Option<usize>)
    ensures
        oi(r) == first_quote_from(s@, i as int),
{
    let mut j = i;
    while j < s.len()
        invariant
            i <= j,
            first_quote_from(s@, j as int) == first_quote_from(s@, i as int),
        decreases s@.len() - j,
    {
        if s[j] == '"' {
            return Some(j);
        }
        j = j + 1;
    }
    None
}

fn exec_has_close_from(s: &[char], i: usize) -> (r: bool)
    ensures
        r == has_close_from(s@, i as int),
{
    let mut j = i;
    while j < s.len()
        invariant
            i <= j,
            forall|k: int| i <= k < j ==> s@[k] != ']',
        decreases s@.len() - j,
    {
        if s[j] == ']' {
            return true;
        }
        j = j + 1;
    }
    false
}

fn exec_bracket_outer(s: &[char], q0: usize) -> (r: Option<usize>)
    ensures
        oi(r) == bracket_outer(s@, q0 as int),
{
    let mut q = q0;
    loop
        invariant
            bracket_outer(s@, q as int) == bracket_outer(s@, q0 as int),
        decreases s@.len() - q,
    {
        if q >= s.len() {
            return None;
        }
        if s[q] == ']' {
            return Some(q + 1);
        }
        if s[q] == '"' && q + 1 < s.len() && s[q + 1] != '"' {
            if let Some(c) = exec_first_quote_from(s, q + 2) {
                proof {
                    lemma_first_quote_from(s@, q + 2);
                }
                if exec_has_close_from(s, c + 1) {
                    q = c + 1;
                    continue ;
                }
            }
        }
        q = q + 1;
    }
}

fn is_cmd_char_exec(c: char) -> (r: bool)
    ensures
        r == is_cmd_char(c),
{
    let u = c as u32;
    (97 <= u && u <= 122) || (65 <= u && u <= 90) || (48 <= u && u <= 57) || c == '*' || c == '!'
        || c == '&' || c == '-' || c == '+'
}

/// The end of the Sakura Script tag that starts at `i`, if one does.
pub fn exec_tag_match_at(s: &[char], i: usize) -> (r: Option<usize>)
    ensures
        oi(r) == tag_match_at(s@, i as int),
{
    if !(i < s.len() && s[i] == '\\') {
        return None;
    }
    let u: usize = if i + 1 < s.len() && s[i + 1] == '_' {
        if i + 2 < s.len() && s[i + 2] == '_' {
            2
        } else {
            1
        }
    } else {
        0
    };
    let k = i + 1 + u;
    if k < s.len() && k + 1 < s.len() && s[k] == 'w' && 49 <= (s[k + 1] as u32) && (s[k + 1] as u32)
        <= 57 {
        Some(k + 2)
    } else if k < s.len() && is_cmd_char_exec(s[k]) {
        if k + 1 < s.len() && s[k + 1] == '[' && k + 2 < s.len() && s[k + 2] != ']' {
            match exec_bracket_outer(s, k + 2) {
                Some(e) => Some(e),
                None => Some(k + 1),
            }
        } else {
            Some(k + 1)
        }
    } else {
        None
    }
}

/// The characters of `s` with every Sakura Script tag removed.
pub fn exec_cleared(s: &[char]) -> (r: Vec<char>)
    ensures
        r@ == cleared(s@),
{
    let mut r: Vec<char> = Vec::new();
    let mut p: usize = 0;
    while p < s.len()
        invariant
            p <= s@.len(),
            r@ + cleared_from(s@, p as int) == cleared(s@),
        decreases s@.len() - p,
    {
        proof {
            lemma_tag_match_at(s@, p as int);
        }
        match exec_tag_match_at(s, p) {
            Some(e) => {
                p = e;
            },
            None => {
                assert(r@.push(s@[p as int]) + cleared_from(s@, p + 1) == r@ + (seq![s@[p as int]]
                    + cleared_from(s@, p + 1)));
                r.push(s[p]);
                p = p + 1;
            },
        }
    }
    assert(r@ + Seq::<char>::empty() == r@);
    r
}

/// Spans held as machine integers, seen as integers.
pub open spec fn span_ints(v: Seq<(usize, usize)>) -> Seq<(int, int)> {
    v.map_values(|x: (usize, usize)| (x.0 as int, x.1 as int))
}

/// The spans of the Sakura Script tags in `s`, leftmost first.
pub fn exec_tag_spans(s: &[char]) -> (r: Vec<(usize, usize)>)
    ensures
        span_ints(r@) == tag_spans(s@),
{
    let mut r: Vec<(usize, usize)> = Vec::new();
    let mut p: usize = 0;
    while p < s.len()
        invariant
            p <= s@.len(),
            span_ints(r@) + tag_spans_from(s@, p as int)
                == tag_spans(s@),
        decreases s@.len() - p,
    {
        proof {
            lemma_tag_match_at(s@, p as int);
        }
        match exec_tag_match_at(s, p) {
            Some(e) => {
                let ghost old_r = r@;
                r.push((p, e));
                assert(span_ints(r@) == span_ints(old_r).push((p as int, e as int)));
                assert(span_ints(r@) + tag_spans_from(
                    s@,
                    e as int,
                ) == span_ints(old_r) + (seq![
                    (p as int, e as int),
                ] + tag_spans_from(s@, e as int)));
                p = e;
            },
            None => {
                p = p + 1;
            },
        }
    }
    assert(span_ints(r@) + Seq::<(int, int)>::empty()
        == span_ints(r@));
    r
}

proof fn lemma_cleared_plain(s: Seq<char>, p: int)
    requires
        0 <= p <= s.len(),
        forall|j: int| p <= j < s.len() ==> s[j] != '\\',
    ensures
        cleared_from(s, p) == s.subrange(p, s.len() as int),
    decreases s.len() - p,
{
    if p < s.len() {
        lemma_cleared_plain(s, p + 1);
        assert(seq![s[p]] + s.subrange(p + 1, s.len() as int) =~= s.subrange(p, s.len() as int));
    } else {
        assert(s.subrange(p, s.len() as int) =~= Seq::<char>::empty());
    }
}

proof fn lemma_cleared_prefix(x: Seq<char>, s: Seq<char>, p: int)
    requires
        0 <= p <= x.len() <= s.len(),
        x == s.take(x.len() as int),
        forall|j: int| 0 <= j < x.len() ==> x[j] != '\\',
    ensures
        cleared_from(s, p) == x.subrange(p, x.len() as int) + cleared_from(s, x.len() as int),
    decreases x.len() - p,
{
    if p < x.len() {
        assert(s[p] == x[p]);
        lemma_cleared_prefix(x, s, p + 1);
        assert(seq![s[p]] + (x.subrange(p + 1, x.len() as int) + cleared_from(s, x.len() as int))
            =~= x.subrange(p, x.len() as int) + cleared_from(s, x.len() as int));
    } else {
        assert(x.subrange(p, x.len() as int) + cleared_from(s, x.len() as int) =~= cleared_from(s, p));
    }
}

/// A backslash followed by a command character (an ASCII letter or digit, or one of
/// `* ! & - +`) is a tag and is not spoken: in a text made of plain text `x` (no backslash),
/// the tag, and plain text `t` that does not open an argument list with `[` (nor, after `\w`,
/// start with a digit from 1 to 9, which would make a wait tag), only `x` and `t` are left.
pub proof fn command_tags_are_cleared(x: Seq<char>, c: char, t: Seq<char>)
    requires
        ('a' <= c <= 'z') || ('A' <= c <= 'Z') || ('0' <= c <= '9') || c == '*' || c == '!' || c == '&'
            || c == '-' || c == '+',
        forall|j: int| 0 <= j < x.len() ==> x[j] != '\\',
        forall|j: int| 0 <= j < t.len() ==> t[j] != '\\',
        t.len() > 0 ==> t[0] != '[',
        t.len() > 0 && c == 'w' ==> !(49 <= (t[0] as u32) && (t[0] as u32) <= 57),
    ensures
        cleared(x + seq!['\\', c] + t) == x + t,
        cleared(seq!['\\', c]) == Seq::<char>::empty(),
{
    let s = x + seq!['\\', c] + t;
    let n = x.len() as int;
    assert(s.take(n) =~= x);
    lemma_cleared_prefix(x, s, 0);
    assert(x.subrange(0, n) =~= x);
    assert(s[n] == '\\');
    assert(s[n + 1] == c);
    assert(underscores(s, n) == 0);
    assert(is_cmd_char(c)) by {
        assert('a' as u32 == 97 && 'z' as u32 == 122 && 'A' as u32 == 65 && 'Z' as u32 == 90);
        assert('0' as u32 == 48 && '9' as u32 == 57);
    }
    if t.len() > 0 {
        let ch = t[0];
        assert(s[n + 2] == ch);
    }
    assert(tag_match_at(s, n) == Some(n + 2));
    assert forall|j: int| n + 2 <= j < s.len() implies s[j] != '\\' by {
        assert(s[j] == t[j - n - 2]);
    }
    lemma_cleared_plain(s, n + 2);
    assert(s.subrange(n + 2, s.len() as int) =~= t);
    let b = seq!['\\', c];
    assert(tag_match_at(b, 0) == Some(2int));
    assert(cleared_from(b, 2) == Seq::<char>::empty());
}

} // verus!
