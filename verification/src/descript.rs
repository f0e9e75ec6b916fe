use vstd::prelude::*;
use crate::text::{chars_of, string_of, copy_range, decimal, digit_char, strs};
use vstd::string::StringExecFns;
use vstd::set_lib::{set_int_range, lemma_int_range, lemma_len_subset};
use crate::plugin::{contains_text, has_text};

verus! {

/// The text that `encoding_rs::SHIFT_JIS.decode` reads from `bytes`.
pub uninterp spec fn shift_jis_text(bytes: Seq<u8>) -> Seq<char>;

/// The text that `encoding_rs::UTF_8.decode` reads from `bytes`.
pub uninterp spec fn utf8_text(bytes: Seq<u8>) -> Seq<char>;

/// Decodes `bytes` as Shift_JIS with `encoding_rs::Encoding::decode` on `SHIFT_JIS`: a
/// byte-order mark, where there is one, selects its own encoding and is dropped, and malformed
/// sequences become U+FFFD. Nothing is stated of the characters it yields: the result is
/// named, as a function of the bytes alone.
#[verifier::external_body]
fn decode_shift_jis(bytes: &[u8]) -> (r: String)
    ensures
        r@ == shift_jis_text(bytes@),
{
    encoding_rs::SHIFT_JIS.decode(bytes).0.into_owned()
}

/// Decodes `bytes` as UTF-8 with `encoding_rs::Encoding::decode` on `UTF_8`: a byte-order mark,
/// where there is one, selects its own encoding and is dropped, and malformed sequences become
/// U+FFFD. Nothing is stated of the characters it yields: the result is named, as a function
/// of the bytes alone.
#[verifier::external_body]
fn decode_utf8(bytes: &[u8]) -> (r: String)
    ensures
        r@ == utf8_text(bytes@),
{
    encoding_rs::UTF_8.decode(bytes).0.into_owned()
}

/// The text of a `descript.txt`: read as Shift_JIS, unless that reading says
/// `charset,UTF-8`, in which case it is read as UTF-8.
pub open spec fn descript_text(bytes: Seq<u8>) -> Seq<char> {
    if contains_text(shift_jis_text(bytes), "charset,UTF-8"@) {
        utf8_text(bytes)
    } else {
        shift_jis_text(bytes)
    }
}

/// The position of the first line feed in `s`.
pub open spec fn newline_pos(s: Seq<char>) -> Option<int>
    decreases s.len(),
{
    if s.len() == 0 {
        None
    } else if s[0] == '\n' {
        Some(0)
    } else {
        match newline_pos(s.drop_first()) {
            Some(i) => Some(i + 1),
            None => None,
        }
    }
}

/// A line without the carriage return that ends it, if any.
pub open spec fn without_cr(l: Seq<char>) -> Seq<char> {
    if l.len() > 0 && l.last() == '\r' {
        l.drop_last()
    } else {
        l
    }
}

/// The lines of `s` as `str::lines` yields them: split after each line feed, which is dropped
/// with a carriage return just before it; a last line with no line feed is kept as it is, and
/// there is no empty line after a final line feed.
pub open spec fn text_lines(s: Seq<char>) -> Seq<Seq<char>>
    decreases s.len(),
{
    if s.len() == 0 {
        Seq::empty()
    } else {
        match newline_pos(s) {
            Some(i) => if 0 <= i < s.len() {
                seq![without_cr(s.take(i))] + text_lines(s.skip(i + 1))
            } else {
                Seq::empty()
            },
            None => seq![s],
        }
    }
}

/// How many commas `l` holds.
pub open spec fn comma_count(l: Seq<char>) -> nat
    decreases l.len(),
{
    if l.len() == 0 {
        0
    } else {
        comma_count(l.drop_last()) + if l.last() == ',' {
            1nat
        } else {
            0nat
        }
    }
}

/// The position of the first comma in `l`.
pub open spec fn comma_pos(l: Seq<char>) -> int
    decreases l.len(),
{
    if l.len() == 0 || l[0] == ',' {
        0
    } else {
        comma_pos(l.drop_first()) + 1
    }
}

/// The key and value that a line with exactly one comma gives; other lines give none.
pub open spec fn line_entry(l: Seq<char>) -> Seq<(Seq<char>, Seq<char>)> {
    if comma_count(l) == 1 {
        seq![(l.take(comma_pos(l)), l.skip(comma_pos(l) + 1))]
    } else {
        Seq::empty()
    }
}

/// The entries of the lines `ls`, in order.
pub open spec fn lines_entries(ls: Seq<Seq<char>>) -> Seq<(Seq<char>, Seq<char>)>
    decreases ls.len(),
{
    if ls.len() == 0 {
        Seq::empty()
    } else {
        lines_entries(ls.drop_last()) + line_entry(ls.last())
    }
}

/// The entries of a `descript.txt` text, in the order of its lines.
pub open spec fn descript_entries(s: Seq<char>) -> Seq<(Seq<char>, Seq<char>)> {
    lines_entries(text_lines(s))
}

/// The views of a sequence of pairs of strings.
pub open spec fn entries_view(v: Seq<(String, String)>) -> Seq<(Seq<char>, Seq<char>)> {
    v.map_values(|e: (String, String)| (e.0@, e.1@))
}

proof fn lemma_newline_pos(s: Seq<char>)
    ensures
        match newline_pos(s) {
            Some(i) => 0 <= i < s.len() && s[i] == '\n' && forall|j: int| 0 <= j < i ==> s[j] != '\n',
            None => forall|j: int| 0 <= j < s.len() ==> s[j] != '\n',
        },
    decreases s.len(),
{
    if s.len() > 0 && s[0] != '\n' {
        lemma_newline_pos(s.drop_first());
        assert forall|j: int| 1 <= j < s.len() implies s[j] == s.drop_first()[j - 1] by {}
    }
}

proof fn lemma_newline_pos_at(s: Seq<char>, i: int)
    requires
        0 <= i < s.len(),
        s[i] == '\n',
        forall|j: int| 0 <= j < i ==> s[j] != '\n',
    ensures
        newline_pos(s) == Some(i),
{
    lemma_newline_pos(s);
}

proof fn lemma_comma_pos(l: Seq<char>)
    requires
        comma_count(l) >= 1,
    ensures
        0 <= comma_pos(l) < l.len(),
        l[comma_pos(l)] == ',',
        forall|j: int| 0 <= j < comma_pos(l) ==> l[j] != ',',
    decreases l.len(),
{
    if l.len() > 0 && l[0] != ',' {
        lemma_comma_count_first(l);
        lemma_comma_pos(l.drop_first());
        assert forall|j: int| 1 <= j < comma_pos(l) implies l[j] != ',' by {
            assert(l[j] == l.drop_first()[j - 1]);
        }
    }
}

proof fn lemma_comma_count_first(l: Seq<char>)
    requires
        l.len() > 0,
    ensures
        comma_count(l) == comma_count(l.drop_first()) + if l[0] == ',' {
            1nat
        } else {
            0nat
        },
    decreases l.len(),
{
    if l.len() > 1 {
        lemma_comma_count_first(l.drop_last());
        assert(l.drop_last().drop_first() =~= l.drop_first().drop_last());
        assert(l.drop_last()[0] == l[0]);
        assert(l.drop_first().last() == l.last());
        assert(comma_count(l.drop_first()) == comma_count(l.drop_first().drop_last()) + if l.drop_first().last() == ',' {
            1nat
        } else {
            0nat
        });
    } else {
        assert(l.drop_first().len() == 0);
        assert(l.drop_last().len() == 0);
        assert(comma_count(l.drop_first()) == 0);
        assert(comma_count(l.drop_last()) == 0);
        assert(l.last() == l[0]);
    }
}

/// The entry of one line, as `load_descript` reads it.
fn exec_line_entry(l: &Vec<char>) -> (r: Option<(String, String)>)
    ensures
        match r {
            Some(e) => line_entry(l@) == seq![(e.0@, e.1@)],
            None => line_entry(l@) == Seq::<(Seq<char>, Seq<char>)>::empty(),
        },
{
    let mut count: usize = 0;
    let mut first: usize = 0;
    let mut i: usize = 0;
    while i < l.len()
        invariant
            i <= l@.len(),
            count == comma_count(l@.take(i as int)),
            count <= i,
            count >= 1 ==> comma_pos(l@) == first && first < i,
            count == 0 ==> forall|j: int| 0 <= j < i ==> l@[j] != ',',
        decreases l@.len() - i,
    {
        assert(l@.take(i + 1).drop_last() =~= l@.take(i as int));
        if l[i] == ',' {
            if count == 0 {
                first = i;
                proof {
                    lemma_comma_pos_at(l@, i as int);
                }
            }
            count = count + 1;
        }
        i = i + 1;
    }
    assert(l@.take(l@.len() as int) =~= l@);
    if count != 1 {
        return None;
    }
    proof {
        lemma_comma_pos(l@);
    }
    let key = string_of(copy_range(l.as_slice(), 0, first).as_slice());
    let value = string_of(copy_range(l.as_slice(), first + 1, l.len()).as_slice());
    assert(l@.subrange(0, first as int) =~= l@.take(first as int));
    assert(l@.subrange(first + 1, l@.len() as int) =~= l@.skip(first + 1));
    Some((key, value))
}

proof fn lemma_comma_pos_at(l: Seq<char>, i: int)
    requires
        0 <= i < l.len(),
        l[i] == ',',
        forall|j: int| 0 <= j < i ==> l[j] != ',',
    ensures
        comma_pos(l) == i,
    decreases i,
{
    if i > 0 {
        assert forall|j: int| 0 <= j < i - 1 implies l.drop_first()[j] != ',' by {
            assert(l.drop_first()[j] == l[j + 1]);
        }
        lemma_comma_pos_at(l.drop_first(), i - 1);
    }
}

/// The lines of `text`, as `str::lines` yields them.
pub fn parse_lines(text: &str) -> (r: Vec<Vec<char>>)
    ensures
        r@.map_values(|l: Vec<char>| l@) == text_lines(text@),
{
    let cs = chars_of(text);
    let ghost s = text@;
    let mut lines: Vec<Vec<char>> = Vec::new();
    let mut start: usize = 0;
    let mut i: usize = 0;
    assert(s.skip(0) =~= s);
    while i < cs.len()
        invariant
            cs@ == s,
            start <= i <= s.len(),
            forall|j: int| start <= j < i ==> s[j] != '\n',
            lines@.map_values(|l: Vec<char>| l@) + text_lines(s.skip(start as int)) == text_lines(s),
        decreases s.len() - i,
    {
        if cs[i] == '\n' {
            let mut line = copy_range(cs.as_slice(), start, i);
            if line.len() > 0 && line[line.len() - 1] == '\r' {
                line.pop();
            }
            let ghost rest = s.skip(start as int);
            proof {
                assert forall|j: int| 0 <= j < i - start implies rest[j] != '\n' by {
                    assert(rest[j] == s[start + j]);
                }
                lemma_newline_pos_at(rest, i - start);
                assert(rest.take(i - start) =~= s.subrange(start as int, i as int));
                assert(rest.skip(i - start + 1) =~= s.skip(i + 1));
            }
            let ghost before = lines@;
            lines.push(line);
            assert(lines@.map_values(|l: Vec<char>| l@) =~= before.map_values(|l: Vec<char>| l@).push(
                without_cr(rest.take(i - start)),
            ));
            start = i + 1;
        }
        i = i + 1;
    }
    if start < cs.len() {
        let line = copy_range(cs.as_slice(), start, cs.len());
        let ghost rest = s.skip(start as int);
        proof {
            assert forall|j: int| 0 <= j < rest.len() implies rest[j] != '\n' by {
                assert(rest[j] == s[start + j]);
            }
            lemma_newline_pos(rest);
            assert(rest =~= s.subrange(start as int, s.len() as int));
        }
        lines.push(line);
    } else {
        assert(s.skip(start as int).len() == 0);
    }
    assert(lines@.map_values(|l: Vec<char>| l@) =~= text_lines(s));
    lines
}

/// The entries of a `descript.txt` text: for each line with exactly one comma, in order, the
/// text before the comma and the text after it.
pub fn parse_descript(text: &str) -> (r: Vec<(String, String)>)
    ensures
        entries_view(r@) == descript_entries(text@),
{
    let lines = parse_lines(text);
    let ghost lv = lines@.map_values(|l: Vec<char>| l@);
    let mut r: Vec<(String, String)> = Vec::new();
    let mut k: usize = 0;
    while k < lines.len()
        invariant
            k <= lines@.len(),
            lv == lines@.map_values(|l: Vec<char>| l@),
            entries_view(r@) == lines_entries(lv.take(k as int)),
        decreases lines@.len() - k,
    {
        assert(lv.take(k + 1).drop_last() =~= lv.take(k as int));
        let ghost before = r@;
        match exec_line_entry(&lines[k]) {
            Some(e) => {
                r.push(e);
                assert(entries_view(r@) =~= entries_view(before) + line_entry(lv[k as int]));
            },
            None => {
                assert(entries_view(r@) =~= entries_view(before) + line_entry(lv[k as int]));
            },
        }
        k = k + 1;
    }
    assert(lv.take(lv.len() as int) =~= lv);
    r
}

/// The entries of the `descript.txt` held in `buffer`: its text read as Shift_JIS, or as
/// UTF-8 when it says `charset,UTF-8`, then split into entries.
pub fn descript_from_bytes(buffer: &[u8]) -> (r: Vec<(String, String)>)
    ensures
        entries_view(r@) == descript_entries(descript_text(buffer@)),
{
    let mut text = decode_shift_jis(buffer);
    if has_text(text.as_str(), "charset,UTF-8") {
        text = decode_utf8(buffer);
    }
    parse_descript(text.as_str())
}

/// The value of `key` among the entries: that of the last entry with this key, as a table
/// filled in the order of the entries keeps it.
pub open spec fn descript_value(entries: Seq<(Seq<char>, Seq<char>)>, key: Seq<char>) -> Option<Seq<char>>
    decreases entries.len(),
{
    if entries.len() == 0 {
        None
    } else if entries.last().0 == key {
        Some(entries.last().1)
    } else {
        descript_value(entries.drop_last(), key)
    }
}

/// The key that names character `n` of a ghost, for `n` from 2 on.
pub open spec fn char_key(n: nat) -> Seq<char> {
    "char"@ + decimal(n) + ".name"@
}

/// The names of characters `n`, `n + 1`, ... up to the first that the entries do not name
/// (there can be no more than there are entries).
pub open spec fn numbered_names(entries: Seq<(Seq<char>, Seq<char>)>, n: nat) -> Seq<Seq<char>>
    decreases entries.len() + 2 - n,
{
    if n >= entries.len() + 2 {
        Seq::empty()
    } else {
        match descript_value(entries, char_key(n)) {
            Some(v) => seq![v] + numbered_names(entries, n + 1),
            None => Seq::empty(),
        }
    }
}

/// The names of a ghost's characters as its `descript.txt` gives them: the main character
/// (`sakura.name`) and the partner (`kero.name`) where named, then `char2.name`,
/// `char3.name`, ... up to the first that is not named.
pub open spec fn character_names(entries: Seq<(Seq<char>, Seq<char>)>) -> Seq<Seq<char>> {
    let sakura = match descript_value(entries, "sakura.name"@) {
        Some(v) => seq![v],
        None => Seq::empty(),
    };
    let kero = match descript_value(entries, "kero.name"@) {
        Some(v) => seq![v],
        None => Seq::empty(),
    };
    sakura + kero + numbered_names(entries, 2)
}

proof fn lemma_descript_value(entries: Seq<(Seq<char>, Seq<char>)>, key: Seq<char>)
    ensures
        descript_value(entries, key) matches Some(v) ==> exists|j: int|
            0 <= j < entries.len() && entries[j].0 == key && entries[j].1 == v,
    decreases entries.len(),
{
    if entries.len() > 0 && entries.last().0 != key {
        lemma_descript_value(entries.drop_last(), key);
        if descript_value(entries, key) is Some {
            let j = choose|j: int|
                0 <= j < entries.drop_last().len() && entries.drop_last()[j].0 == key
                    && entries.drop_last()[j].1 == descript_value(entries, key)->0;
            assert(entries[j] == entries.drop_last()[j]);
        }
    } else if entries.len() > 0 {
        assert(entries[entries.len() - 1] == entries.last());
    }
}

fn lookup_entry(entries: &Vec<(String, String)>, key: &str) -> (r: Option<usize>)
    ensures
        match r {
            Some(j) => j < entries@.len() && entries@[j as int].0@ == key@ && descript_value(
                entries_view(entries@),
                key@,
            ) == Some(entries@[j as int].1@),
            None => descript_value(entries_view(entries@), key@) is None,
        },
{
    let ghost ev = entries_view(entries@);
    let mut k: usize = entries.len();
    assert(ev.take(k as int) =~= ev);
    while k > 0
        invariant
            k <= entries@.len(),
            ev == entries_view(entries@),
            descript_value(ev.take(k as int), key@) == descript_value(ev, key@),
        decreases k,
    {
        assert(ev.take(k as int).drop_last() =~= ev.take(k - 1));
        assert(ev.take(k as int).last() == ev[k - 1]);
        if crate::text::same_text(entries[k - 1].0.as_str(), key) {
            return Some(k - 1);
        }
        k = k - 1;
    }
    None
}

proof fn lemma_digit_char_injective(a: int, b: int)
    requires
        0 <= a < 10,
        0 <= b < 10,
        digit_char(a) == digit_char(b),
    ensures
        a == b,
{
}

proof fn lemma_decimal_len(n: nat)
    ensures
        decimal(n).len() >= 1,
        n >= 10 ==> decimal(n).len() >= 2,
    decreases n,
{
    if n >= 10 {
        lemma_decimal_len(n / 10);
    }
}

proof fn lemma_decimal_injective(a: nat, b: nat)
    requires
        decimal(a) == decimal(b),
    ensures
        a == b,
    decreases a,
{
    lemma_decimal_len(a);
    lemma_decimal_len(b);
    if a < 10 && b < 10 {
        assert(decimal(a)[0] == digit_char(a as int));
        assert(decimal(b)[0] == digit_char(b as int));
        lemma_digit_char_injective(a as int, b as int);
    } else if a >= 10 && b >= 10 {
        assert(decimal(a).last() == digit_char((a % 10) as int));
        assert(decimal(b).last() == digit_char((b % 10) as int));
        lemma_digit_char_injective((a % 10) as int, (b % 10) as int);
        assert(decimal(a).drop_last() =~= decimal(a / 10));
        assert(decimal(b).drop_last() =~= decimal(b / 10));
        lemma_decimal_injective(a / 10, b / 10);
    } else {
        assert(decimal(a).len() != decimal(b).len());
    }
}

proof fn lemma_char_key_injective(a: nat, b: nat)
    requires
        char_key(a) == char_key(b),
    ensures
        a == b,
{
    reveal_strlit("char");
    reveal_strlit(".name");
    let da = decimal(a);
    let db = decimal(b);
    assert(char_key(a).len() == 9 + da.len());
    assert(char_key(b).len() == 9 + db.len());
    assert(da =~= char_key(a).subrange(4, 4 + da.len() as int));
    assert(db =~= char_key(b).subrange(4, 4 + db.len() as int));
    lemma_decimal_injective(a, b);
}

/// The names of a ghost's characters, as its `descript.txt` entries give them.
pub fn count_characters(entries: &Vec<(String, String)>) -> (r: Vec<String>)
    ensures
        strs(r@) == character_names(entries_view(entries@)),
{
    let ghost ev = entries_view(entries@);
    let mut names: Vec<String> = Vec::new();
    match lookup_entry(entries, "sakura.name") {
        Some(j) => names.push(entries[j].1.clone()),
        None => {},
    }
    match lookup_entry(entries, "kero.name") {
        Some(j) => names.push(entries[j].1.clone()),
        None => {},
    }
    let ghost head = strs(names@);
    let mut i: u128 = 2;
    let ghost mut found: Seq<int> = Seq::empty();
    let n = entries.len();
    loop
        invariant
            ev == entries_view(entries@),
            n == entries@.len(),
            2 <= i <= n + 2,
            found.len() == i - 2,
            found.no_duplicates(),
            forall|k: int|
                0 <= k < found.len() ==> 0 <= #[trigger] found[k] < n && entries@[found[k]].0@ == char_key(
                    (k + 2) as nat,
                ),
            strs(names@) + numbered_names(ev, i as nat) == head + numbered_names(ev, 2),
            head + numbered_names(ev, 2) == character_names(ev),
        ensures
            strs(names@) == character_names(ev),
        decreases n + 2 - i,
    {
        let key = String::from_str("char").concat(crate::text::decimal_string(i).as_str()).concat(".name");
        assert(key@ =~= char_key(i as nat));
        match lookup_entry(entries, key.as_str()) {
            None => {
                proof {
                    if (i as int) < n + 2 {
                        assert(numbered_names(ev, i as nat) =~= Seq::<Seq<char>>::empty());
                    }
                }
                assert(strs(names@) + numbered_names(ev, i as nat) =~= strs(names@));
                break;
            },
            Some(j) => {
                proof {
                    assert forall|k: int| 0 <= k < found.len() implies found[k] != j as int by {
                        if found[k] == j as int {
                            lemma_char_key_injective((k + 2) as nat, i as nat);
                        }
                    }
                    let nf = found.push(j as int);
                    assert(nf.no_duplicates());
                    assert(nf.to_set().subset_of(set_int_range(0, n as int)));
                    nf.unique_seq_to_set();
                    lemma_int_range(0, n as int);
                    lemma_len_subset(nf.to_set(), set_int_range(0, n as int));
                    found = nf;
                }
                let ghost before = strs(names@);
                names.push(entries[j].1.clone());
                assert(numbered_names(ev, i as nat) =~= seq![ev[j as int].1] + numbered_names(ev, (i + 1) as nat));
                assert(strs(names@) =~= before.push(ev[j as int].1));
                assert(strs(names@) + numbered_names(ev, (i + 1) as nat) =~= before + numbered_names(ev, i as nat));
                i = i + 1;
            },
        }
    }
    names
}

} // verus!
