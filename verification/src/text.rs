use vstd::prelude::*;

verus! {

/// Appends one character to a `String`: `String::push`.
#[verifier::external_body]
pub(crate) fn push_char(s: &mut String, c: char)
    ensures
        final(s)@ == old(s)@.push(c),
{
    s.push(c);
}

/// The characters of a string slice, in order.
pub fn chars_of(s: &str) -> (r: Vec<char>)
    ensures
        r@ == s@,
{
    let mut r: Vec<char> = Vec::new();
    for c in it: s.chars()
        invariant
            r@ == it.seq().take(it.index() as int),
            it.seq() == s@,
    {
        r.push(c);
    }
    r
}

/// A `String` holding the given characters, in order.
pub fn string_of(cs: &[char]) -> (r: String)
    ensures
        r@ == cs@,
{
    let mut r = String::new();
    let mut i: usize = 0;
    while i < cs.len()
        invariant
            i <= cs@.len(),
            r@ == cs@.take(i as int),
        decreases cs@.len() - i,
    {
        push_char(&mut r, cs[i]);
        assert(cs@.take(i as int + 1) == cs@.take(i as int).push(cs@[i as int]));
        i = i + 1;
    }
    assert(cs@.take(cs@.len() as int) == cs@);
    r
}

} // verus!

verus! {

/// The characters `s[a..b]` in a fresh vector.
pub fn copy_range(s: &[char], a: usize, b: usize) -> (r: Vec<char>)
    requires
        a <= b <= s@.len(),
    ensures
        r@ == s@.subrange(a as int, b as int),
{
    let mut r: Vec<char> = Vec::new();
    let mut i = a;
    while i < b
        invariant
            a <= i <= b <= s@.len(),
            r@ == s@.subrange(a as int, i as int),
        decreases b - i,
    {
        r.push(s[i]);
        assert(s@.subrange(a as int, i + 1) == s@.subrange(a as int, i as int).push(s@[i as int]));
        i = i + 1;
    }
    r
}

/// Appends the characters of `t` to `r`.
pub fn append_chars(r: &mut Vec<char>, t: &[char])
    ensures
        final(r)@ == old(r)@ + t@,
{
    let mut i: usize = 0;
    while i < t.len()
        invariant
            i <= t@.len(),
            r@ == old(r)@ + t@.take(i as int),
        decreases t@.len() - i,
    {
        r.push(t[i]);
        assert(t@.take(i + 1) == t@.take(i as int).push(t@[i as int]));
        i = i + 1;
    }
    assert(t@.take(t@.len() as int) == t@);
}

/// The views of a sequence of strings.
pub open spec fn strs(v: Seq<String>) -> Seq<Seq<char>> {
    v.map_values(|x: String| x@)
}

/// The views of a sequence of character vectors.
pub open spec fn vecs(v: Seq<Vec<char>>) -> Seq<Seq<char>> {
    v.map_values(|x: Vec<char>| x@)
}

/// Strings holding the given character vectors, in order.
pub fn strings_of(v: &Vec<Vec<char>>) -> (r: Vec<String>)
    ensures
        strs(r@) == vecs(v@),
{
    let mut r: Vec<String> = Vec::new();
    let mut i: usize = 0;
    while i < v.len()
        invariant
            i <= v@.len(),
            strs(r@) == vecs(v@).take(i as int),
        decreases v@.len() - i,
    {
        let s = string_of(v[i].as_slice());
        let ghost old_r = r@;
        r.push(s);
        assert(strs(r@) =~= strs(old_r).push(v@[i as int]@));
        assert(vecs(v@).take(i + 1) =~= vecs(v@).take(i as int).push(v@[i as int]@));
        i = i + 1;
    }
    assert(vecs(v@).take(v@.len() as int) == vecs(v@));
    r
}

/// The ASCII digit for `d < 10`.
pub open spec fn digit_char(d: int) -> char {
    if d == 0 { '0' } else if d == 1 { '1' } else if d == 2 { '2' } else if d == 3 { '3' }
    else if d == 4 { '4' } else if d == 5 { '5' } else if d == 6 { '6' } else if d == 7 { '7' }
    else if d == 8 { '8' } else { '9' }
}

fn digit_of(d: u128) -> (c: char)
    requires
        d < 10,
    ensures
        c == digit_char(d as int),
{
    if d == 0 { '0' } else if d == 1 { '1' } else if d == 2 { '2' } else if d == 3 { '3' }
    else if d == 4 { '4' } else if d == 5 { '5' } else if d == 6 { '6' } else if d == 7 { '7' }
    else if d == 8 { '8' } else { '9' }
}

/// The decimal representation of `n`, most significant digit first.
pub open spec fn decimal(n: nat) -> Seq<char>
    decreases n,
{
    if n < 10 {
        seq![digit_char(n as int)]
    } else {
        decimal(n / 10).push(digit_char((n % 10) as int))
    }
}

/// Appends the decimal representation of `n` to `r`.
pub fn push_decimal(r: &mut Vec<char>, n: u128)
    ensures
        final(r)@ == old(r)@ + decimal(n as nat),
    decreases n,
{
    if n >= 10 {
        push_decimal(r, n / 10);
    }
    let c = digit_of(n % 10);
    r.push(c);
    assert(decimal(n as nat) == if n < 10 { seq![digit_char(n as int)] } else {
        decimal((n / 10) as nat).push(digit_char((n % 10) as int))
    });
}

/// Whether two string slices hold the same characters.
pub fn same_text(a: &str, b: &str) -> (r: bool)
    ensures
        r == (a@ == b@),
{
    let x = chars_of(a);
    let y = chars_of(b);
    if x.len() != y.len() {
        return false;
    }
    let mut i: usize = 0;
    while i < x.len()
        invariant
            i <= x@.len(),
            x@ == a@,
            y@ == b@,
            x@.len() == y@.len(),
            forall|j: int| 0 <= j < i ==> x@[j] == y@[j],
        decreases x@.len() - i,
    {
        if x[i] != y[i] {
            return false;
        }
        i = i + 1;
    }
    assert(x@ =~= y@);
    true
}

/// The decimal representation of `n`, with a minus sign when it is negative.
pub open spec fn signed_decimal(n: int) -> Seq<char> {
    if n < 0 {
        seq!['-'] + decimal((-n) as nat)
    } else {
        decimal(n as nat)
    }
}

/// The decimal representation of `n`.
pub fn decimal_string(n: u128) -> (r: String)
    ensures
        r@ == decimal(n as nat),
{
    let mut v: Vec<char> = Vec::new();
    push_decimal(&mut v, n);
    assert(Seq::<char>::empty() + decimal(n as nat) =~= decimal(n as nat));
    string_of(v.as_slice())
}

/// The decimal representation of `n`, with a minus sign when it is negative.
pub fn signed_decimal_string(n: i64) -> (r: String)
    requires
        n > i64::MIN,
    ensures
        r@ == signed_decimal(n as int),
{
    let mut v: Vec<char> = Vec::new();
    if n < 0 {
        v.push('-');
        push_decimal(&mut v, (-n) as u128);
    } else {
        push_decimal(&mut v, n as u128);
        assert(Seq::<char>::empty() + decimal(n as nat) =~= decimal(n as nat));
    }
    string_of(v.as_slice())
}

/// Whether every character of `s` is an ASCII digit.
pub open spec fn all_digits(s: Seq<char>) -> bool {
    forall|i: int| 0 <= i < s.len() ==> '0' <= #[trigger] s[i] <= '9'
}

/// The number written by the ASCII digits `s`, most significant first.
pub open spec fn digits_number(s: Seq<char>) -> int
    decreases s.len(),
{
    if s.len() == 0 {
        0
    } else {
        digits_number(s.drop_last()) * 10 + (s.last() as int - '0' as int)
    }
}

/// The number that `s` writes as an integer: an optional sign (a minus only where `signed`),
/// then at least one ASCII digit and nothing else.
pub open spec fn parsed_integer(s: Seq<char>, signed: bool) -> Option<int> {
    let negative = signed && s.len() > 0 && s[0] == '-';
    let body = if s.len() > 0 && (s[0] == '+' || negative) {
        s.drop_first()
    } else {
        s
    };
    if body.len() == 0 || !all_digits(body) {
        None
    } else if negative {
        Some(-digits_number(body))
    } else {
        Some(digits_number(body))
    }
}

proof fn lemma_digits_number_nonneg(s: Seq<char>)
    requires
        all_digits(s),
    ensures
        digits_number(s) >= 0,
    decreases s.len(),
{
    if s.len() > 0 {
        lemma_digits_number_nonneg(s.drop_last());
    }
}

proof fn lemma_digits_number_grows(s: Seq<char>, k: int)
    requires
        all_digits(s),
        0 <= k <= s.len(),
    ensures
        digits_number(s.take(k)) <= digits_number(s),
    decreases s.len() - k,
{
    if k < s.len() {
        lemma_digits_number_grows(s, k + 1);
        assert(s.take(k + 1).drop_last() =~= s.take(k));
        lemma_digits_number_nonneg(s.take(k));
    } else {
        assert(s.take(k) =~= s);
    }
}

/// Reads the digits `s[start..]` as a number; none when one is not an ASCII digit, none when
/// the number exceeds `limit`.
fn read_digits(s: &Vec<char>, start: usize, limit: u64) -> (r: Option<u64>)
    requires
        start <= s@.len(),
    ensures
        match r {
            Some(v) => all_digits(s@.skip(start as int)) && v == digits_number(s@.skip(start as int))
                && v <= limit,
            None => !all_digits(s@.skip(start as int)) || digits_number(s@.skip(start as int)) > limit,
        },
{
    let ghost body = s@.skip(start as int);
    let mut v: u64 = 0;
    let mut i: usize = start;
    while i < s.len()
        invariant
            start <= i <= s@.len(),
            body == s@.skip(start as int),
            all_digits(body.take(i - start)),
            v == digits_number(body.take(i - start)),
            v <= limit,
        decreases s@.len() - i,
    {
        let c = s[i];
        assert(body.take(i + 1 - start).drop_last() =~= body.take(i - start));
        assert(body[i - start] == c);
        if !('0' <= c && c <= '9') {
            assert(!all_digits(body)) by {
                assert(body[i - start] == c);
            }
            return None;
        }
        let d = (c as u32 - '0' as u32) as u64;
        if d > limit || v > (limit - d) / 10 {
            proof {
                assert(all_digits(body.take(i + 1 - start)));
                assert(digits_number(body.take(i + 1 - start)) == v * 10 + d);
                assert(v * 10 + d > limit) by (nonlinear_arith)
                    requires
                        d > limit || v > (limit - d) / 10,
                        d <= 9,
                ;
                if all_digits(body) {
                    lemma_digits_number_grows(body, i + 1 - start);
                }
            }
            return None;
        }
        assert(v * 10 + d <= limit) by (nonlinear_arith)
            requires
                d <= limit,
                v <= (limit - d) / 10,
        ;
        v = v * 10 + d;
        assert(digits_number(body.take(i + 1 - start)) == digits_number(body.take(i - start)) * 10 + d);
        i = i + 1;
    }
    assert(body.take(i - start) =~= body);
    Some(v)
}

/// The `i32` that `s` writes, as `str::parse` reads it; none where `s` writes none or the
/// number does not fit.
pub fn parse_i32(s: &str) -> (r: Option<i32>)
    ensures
        r == match parsed_integer(s@, true) {
            Some(v) => if i32::MIN <= v <= i32::MAX {
                Some(v as i32)
            } else {
                None::<i32>
            },
            None => None::<i32>,
        },
{
    let cs = chars_of(s);
    let negative = cs.len() > 0 && cs[0] == '-';
    let start: usize = if cs.len() > 0 && (cs[0] == '+' || negative) {
        1
    } else {
        0
    };
    assert(cs@.skip(start as int) =~= if start == 1 { s@.drop_first() } else { s@ });
    if start == cs.len() {
        return None;
    }
    let limit: u64 = if negative {
        2147483648
    } else {
        2147483647
    };
    match read_digits(&cs, start, limit) {
        Some(v) => {
            if negative {
                Some((-(v as i64)) as i32)
            } else {
                Some(v as i32)
            }
        },
        None => None,
    }
}

/// The `usize` that `s` writes, as `str::parse` reads it; none where `s` writes none or the
/// number does not fit.
pub fn parse_usize(s: &str) -> (r: Option<usize>)
    ensures
        r == match parsed_integer(s@, false) {
            Some(v) => if v <= usize::MAX {
                Some(v as usize)
            } else {
                None::<usize>
            },
            None => None::<usize>,
        },
{
    let cs = chars_of(s);
    let start: usize = if cs.len() > 0 && cs[0] == '+' {
        1
    } else {
        0
    };
    assert(cs@.skip(start as int) =~= if start == 1 { s@.drop_first() } else { s@ });
    if start == cs.len() {
        return None;
    }
    match read_digits(&cs, start, usize::MAX as u64) {
        Some(v) => Some(v as usize),
        None => None,
    }
}

pub proof fn lemma_decimal_digits(n: nat)
    ensures
        all_digits(decimal(n)),
        digits_number(decimal(n)) == n,
        decimal(n).len() > 0,
    decreases n,
{
    let k = (n % 10) as int;
    assert(digit_char(k) as int - '0' as int == k);
    if n >= 10 {
        lemma_decimal_digits(n / 10);
        let d = decimal(n);
        assert(d.drop_last() =~= decimal(n / 10));
        assert(d.last() == digit_char(k));
        assert(n == (n / 10) * 10 + n % 10) by (nonlinear_arith);
        assert(digits_number(d) == digits_number(d.drop_last()) * 10 + (d.last() as int - '0' as int));
    } else {
        let d = decimal(n);
        assert(d.drop_last() =~= Seq::<char>::empty());
        assert(digits_number(d.drop_last()) == 0);
        assert(d.last() == digit_char(k));
        assert forall|i: int| 0 <= i < d.len() implies '0' <= #[trigger] d[i] <= '9' by {
            if i < d.len() - 1 {
                assert(d[i] == decimal(n / 10)[i]);
            }
        }
    }
}

/// A number written in decimal is read back as itself: what the menus write into a call, the
/// handlers of the call read again.
pub proof fn decimal_reads_back(n: nat, m: int)
    ensures
        parsed_integer(decimal(n), false) == Some(n as int),
        parsed_integer(signed_decimal(m), true) == Some(m),
{
    lemma_decimal_digits(n);
    let d = if m < 0 {
        decimal((-m) as nat)
    } else {
        decimal(m as nat)
    };
    if m < 0 {
        lemma_decimal_digits((-m) as nat);
        assert((seq!['-'] + d).drop_first() =~= d);
    } else {
        lemma_decimal_digits(m as nat);
    }
}

} // verus!
