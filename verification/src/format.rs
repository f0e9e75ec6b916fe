use vstd::prelude::*;
use crate::text::{chars_of, string_of, strings_of, strs, vecs, copy_range, append_chars};
use crate::tags::{cleared, exec_cleared};
use crate::punct::{punct_split, exec_punct_split, is_ellipsis_text, exec_is_ellipsis_text,
    ellipsis_pieces, exec_ellipsis_pieces};
use crate::align::{with_raw, exec_with_raw, pairs_view, cpairs_view};
use crate::resplit::{resplit_all, exec_resplit_all};
use crate::dialog::{local_dialogs, exec_local_dialogs, scope_tag, exec_scope_tag, line_marked_from,
    exec_line_marked};
use crate::quick::{without_quick_sections, exec_without_quick_sections, strip_qs_tags_from,
    exec_strip_qs_tags};

verus! {

/// One character's line: the text to speak (tags removed), the raw text to show in the
/// balloon (tags kept), and the number of the character who speaks it.
pub struct Dialog {
    pub text: String,
    pub raw_text: String,
    pub scope: usize,
}

/// The views of a sequence of dialogs.
pub open spec fn dialogs_view(v: Seq<Dialog>) -> Seq<(Seq<char>, Seq<char>, int)> {
    v.map_values(|d: Dialog| (d.text@, d.raw_text@, d.scope as int))
}

/// The pieces of a text between scope-changing tags, with the tags removed from the text to
/// speak and the raw text taken from the matching piece of `rl` (the same text with only its
/// quick-section tags removed) where there is one.
pub open spec fn fixed_items(raws: Seq<(Seq<char>, int)>, rl: Seq<(Seq<char>, int)>) -> Seq<
    (Seq<char>, Seq<char>, int),
> {
    Seq::new(
        raws.len(),
        |i: int| (cleared(raws[i].0), if i < rl.len() { rl[i].0 } else { raws[i].0 }, raws[i].1),
    )
}

/// Drops the pieces that have nothing to speak, carrying their scope tag and raw text over to
/// the raw text of the next piece that has something to speak.
pub open spec fn accumulate(items: Seq<(Seq<char>, Seq<char>, int)>, prefix: Seq<char>) -> Seq<
    (Seq<char>, Seq<char>, int),
>
    decreases items.len(),
{
    if items.len() == 0 {
        Seq::empty()
    } else {
        let t = items[0].0;
        let r = items[0].1;
        let sc = items[0].2;
        if t.len() == 0 {
            accumulate(items.drop_first(), prefix + scope_tag(sc) + r)
        } else {
            seq![
                (t, if prefix.len() == 0 {
                    r
                } else {
                    prefix + scope_tag(sc) + r
                }, sc),
            ] + accumulate(items.drop_first(), Seq::empty())
        }
    }
}

/// The lines of a ghost's talk: quick sections deleted, a NUL marker after each run of line
/// breaks when `devide_by_lines`, split at scope-changing tags, tags removed from the spoken
/// text, and silent pieces folded into the raw text of the next spoken one.
pub open spec fn dialogs_of(src: Seq<char>, devide_by_lines: bool) -> Seq<(Seq<char>, Seq<char>, int)> {
    let s1 = without_quick_sections(src, false);
    let s2 = if devide_by_lines {
        line_marked_from(s1, 0)
    } else {
        s1
    };
    accumulate(
        fixed_items(local_dialogs(s2), local_dialogs(strip_qs_tags_from(src, 0))),
        Seq::empty(),
    )
}

/// Splits a ghost's talk into the lines that each character speaks.
pub fn split_dialog(src: String, devide_by_lines: bool) -> (r: Vec<Dialog>)
    ensures
        dialogs_view(r@) == dialogs_of(src@, devide_by_lines),
{
    let sc = chars_of(src.as_str());
    let stripped = exec_strip_qs_tags(sc.as_slice());
    let rl = exec_local_dialogs(stripped.as_slice());
    let s1 = exec_without_quick_sections(sc.as_slice());
    let s2 = if devide_by_lines {
        exec_line_marked(s1.as_slice())
    } else {
        s1
    };
    let raws = exec_local_dialogs(s2.as_slice());
    let ghost rv = raws@.map_values(|x: (Vec<char>, usize)| (x.0@, x.1 as int));
    let ghost rlv = rl@.map_values(|x: (Vec<char>, usize)| (x.0@, x.1 as int));
    let ghost items = fixed_items(rv, rlv);
    assert(items == fixed_items(
        local_dialogs(s2@),
        local_dialogs(strip_qs_tags_from(src@, 0)),
    ));
    let mut result: Vec<Dialog> = Vec::new();
    let mut prefix: Vec<char> = Vec::new();
    let mut i: usize = 0;
    assert(items.skip(0) =~= items);
    assert(dialogs_view(result@) + accumulate(items, Seq::empty()) =~= accumulate(
        items,
        Seq::empty(),
    ));
    while i < raws.len()
        invariant
            i <= raws@.len(),
            rv == raws@.map_values(|x: (Vec<char>, usize)| (x.0@, x.1 as int)),
            rlv == rl@.map_values(|x: (Vec<char>, usize)| (x.0@, x.1 as int)),
            items == fixed_items(rv, rlv),
            dialogs_view(result@) + accumulate(items.skip(i as int), prefix@) == accumulate(
                items,
                Seq::empty(),
            ),
        decreases raws@.len() - i,
    {
        let t = exec_cleared(raws[i].0.as_slice());
        let r: Vec<char> = if i < rl.len() {
            copy_range(rl[i].0.as_slice(), 0, rl[i].0.len())
        } else {
            copy_range(raws[i].0.as_slice(), 0, raws[i].0.len())
        };
        let scope = raws[i].1;
        proof {
            assert(items.skip(i as int).drop_first() =~= items.skip(i + 1));
            assert(rv[i as int] == (raws@[i as int].0@, raws@[i as int].1 as int));
            if i < rl@.len() {
                assert(rlv[i as int] == (rl@[i as int].0@, rl@[i as int].1 as int));
                assert(rl@[i as int].0@.subrange(0, rl@[i as int].0@.len() as int) =~= rl@[i as int].0@);
            } else {
                assert(raws@[i as int].0@.subrange(0, raws@[i as int].0@.len() as int)
                    =~= raws@[i as int].0@);
            }
            assert(items.skip(i as int)[0] == (t@, r@, scope as int));
        }
        let tag = exec_scope_tag(scope);
        if t.len() == 0 {
            append_chars(&mut prefix, tag.as_slice());
            append_chars(&mut prefix, r.as_slice());
        } else {
            let raw_text: Vec<char> = if prefix.len() == 0 {
                r
            } else {
                let mut full = prefix;
                append_chars(&mut full, tag.as_slice());
                append_chars(&mut full, r.as_slice());
                full
            };
            let ghost old_res = dialogs_view(result@);
            let d = Dialog {
                text: string_of(t.as_slice()),
                raw_text: string_of(raw_text.as_slice()),
                scope,
            };
            result.push(d);
            prefix = Vec::new();
            assert(dialogs_view(result@) =~= old_res.push((t@, raw_text@, scope as int)));
            assert(old_res + (seq![(t@, raw_text@, scope as int)] + accumulate(
                items.skip(i + 1),
                Seq::empty(),
            )) =~= dialogs_view(result@) + accumulate(items.skip(i + 1), prefix@));
        }
        i = i + 1;
    }
    assert(items.skip(raws@.len() as int) =~= Seq::<(Seq<char>, Seq<char>, int)>::empty());
    assert(dialogs_view(result@) + Seq::<(Seq<char>, Seq<char>, int)>::empty() =~= dialogs_view(
        result@,
    ));
    result
}

fn pairs_to_chars(v: &Vec<(String, String)>) -> (r: Vec<(Vec<char>, Vec<char>)>)
    ensures
        cpairs_view(r@) == pairs_view(v@),
{
    let mut r: Vec<(Vec<char>, Vec<char>)> = Vec::new();
    let mut i: usize = 0;
    while i < v.len()
        invariant
            i <= v@.len(),
            cpairs_view(r@) == pairs_view(v@).take(i as int),
        decreases v@.len() - i,
    {
        let a = chars_of(v[i].0.as_str());
        let b = chars_of(v[i].1.as_str());
        let ghost old_r = cpairs_view(r@);
        r.push((a, b));
        assert(cpairs_view(r@) =~= old_r.push((v@[i as int].0@, v@[i as int].1@)));
        assert(pairs_view(v@).take(i + 1) =~= pairs_view(v@).take(i as int).push(
            (v@[i as int].0@, v@[i as int].1@),
        ));
        i = i + 1;
    }
    assert(pairs_view(v@).take(v@.len() as int) =~= pairs_view(v@));
    r
}

fn pairs_from_chars(v: &Vec<(Vec<char>, Vec<char>)>) -> (r: Vec<(String, String)>)
    ensures
        pairs_view(r@) == cpairs_view(v@),
{
    let mut r: Vec<(String, String)> = Vec::new();
    let mut i: usize = 0;
    while i < v.len()
        invariant
            i <= v@.len(),
            pairs_view(r@) == cpairs_view(v@).take(i as int),
        decreases v@.len() - i,
    {
        let a = string_of(v[i].0.as_slice());
        let b = string_of(v[i].1.as_slice());
        let ghost old_r = pairs_view(r@);
        r.push((a, b));
        assert(pairs_view(r@) =~= old_r.push((v@[i as int].0@, v@[i as int].1@)));
        assert(cpairs_view(v@).take(i + 1) =~= cpairs_view(v@).take(i as int).push(
            (v@[i as int].0@, v@[i as int].1@),
        ));
        i = i + 1;
    }
    assert(cpairs_view(v@).take(v@.len() as int) =~= cpairs_view(v@));
    r
}

/// Whether the text is nothing but one ellipsis (`…`, `・・`, `..` and longer runs).
pub fn is_ellipsis_segment(text: &str) -> (r: bool)
    ensures
        r == is_ellipsis_text(text@),
{
    let cs = chars_of(text);
    exec_is_ellipsis_text(cs.as_slice())
}

/// Splits the text after each ellipsis; the ellipsis stays with what precedes it, or stands
/// alone when nothing precedes it.
pub fn split_keeping_delimiters(text: &str) -> (r: Vec<String>)
    ensures
        strs(r@) == ellipsis_pieces(text@),
{
    let cs = chars_of(text);
    let pieces = exec_ellipsis_pieces(cs.as_slice());
    strings_of(&pieces)
}

/// Splits the text into speech segments after sentence-ending marks, at NUL markers, and
/// after ellipses.
pub fn split_by_punctuation(src: String) -> (r: Vec<String>)
    ensures
        strs(r@) == punct_split(src@),
{
    let cs = chars_of(src.as_str());
    let pieces = exec_punct_split(cs.as_slice());
    strings_of(&pieces)
}

/// Splits the clean text into speech segments and pairs each with the piece of the raw text
/// it comes from.
pub fn split_by_punctuation_with_raw(clean: String, raw: String) -> (r: Vec<(String, String)>)
    ensures
        pairs_view(r@) == with_raw(clean@, raw@),
{
    let c = chars_of(clean.as_str());
    let w = chars_of(raw.as_str());
    let pairs = exec_with_raw(c.as_slice(), w.as_slice());
    pairs_from_chars(&pairs)
}

/// Re-splits the pairs whose raw text hides an ellipsis inside a quick section.
pub fn resplit_pairs_by_raw_ellipsis(pairs: Vec<(String, String)>) -> (r: Vec<(String, String)>)
    ensures
        pairs_view(r@) == resplit_all(pairs_view(pairs@)),
{
    let cp = pairs_to_chars(&pairs);
    let out = exec_resplit_all(&cp);
    pairs_from_chars(&out)
}

/// The tag that switches speech to character `scope`.
pub fn scope_to_tag(scope: usize) -> (r: String)
    ensures
        r@ == scope_tag(scope as int),
{
    let t = exec_scope_tag(scope);
    string_of(t.as_slice())
}

/// The text with every Sakura Script tag removed.
pub fn clear_tags(src: String) -> (r: String)
    ensures
        r@ == cleared(src@),
{
    let cs = chars_of(src.as_str());
    let c = exec_cleared(cs.as_slice());
    string_of(c.as_slice())
}

/// The text with its quick sections deleted, tags and contents alike.
pub fn delete_quick_section(src: String) -> (r: String)
    ensures
        r@ == without_quick_sections(src@, false),
{
    let cs = chars_of(src.as_str());
    let c = exec_without_quick_sections(cs.as_slice());
    string_of(c.as_slice())
}

/// The text with its quick-section tags removed and their contents kept.
pub fn strip_quick_section_tags_only(src: String) -> (r: String)
    ensures
        r@ == strip_qs_tags_from(src@, 0),
{
    let cs = chars_of(src.as_str());
    let c = exec_strip_qs_tags(cs.as_slice());
    string_of(c.as_slice())
}

/// The text split at scope-changing tags; each piece is both the text and the raw text of
/// its dialog.
pub fn split_dialog_local(src: String) -> (r: Vec<Dialog>)
    ensures
        dialogs_view(r@) == local_dialogs(src@).map_values(|x: (Seq<char>, int)| (x.0, x.0, x.1)),
{
    let cs = chars_of(src.as_str());
    let ds = exec_local_dialogs(cs.as_slice());
    let ghost dv = ds@.map_values(|x: (Vec<char>, usize)| (x.0@, x.1 as int));
    let ghost target = dv.map_values(|x: (Seq<char>, int)| (x.0, x.0, x.1));
    let mut r: Vec<Dialog> = Vec::new();
    let mut i: usize = 0;
    while i < ds.len()
        invariant
            i <= ds@.len(),
            dv == ds@.map_values(|x: (Vec<char>, usize)| (x.0@, x.1 as int)),
            target == dv.map_values(|x: (Seq<char>, int)| (x.0, x.0, x.1)),
            dialogs_view(r@) == target.take(i as int),
        decreases ds@.len() - i,
    {
        let d = Dialog {
            text: string_of(ds[i].0.as_slice()),
            raw_text: string_of(ds[i].0.as_slice()),
            scope: ds[i].1,
        };
        let ghost old_r = dialogs_view(r@);
        r.push(d);
        assert(dialogs_view(r@) =~= old_r.push(target[i as int]));
        assert(target.take(i + 1) =~= target.take(i as int).push(target[i as int]));
        i = i + 1;
    }
    assert(target.take(ds@.len() as int) =~= target);
    r
}

/// The length in bytes of the UTF-8 encoded character whose first byte is `first_byte`.
pub open spec fn utf8_len_of_lead(first_byte: u8) -> int {
    if first_byte & 0x80 == 0 {
        1
    } else if first_byte & 0xE0 == 0xC0 {
        2
    } else if first_byte & 0xF0 == 0xE0 {
        3
    } else {
        4
    }
}

/// The length in bytes of the UTF-8 encoded character whose first byte is `first_byte`.
pub fn utf8_char_len(first_byte: u8) -> (r: usize)
    ensures
        r as int == utf8_len_of_lead(first_byte),
{
    if first_byte & 0x80 == 0 {
        1
    } else if first_byte & 0xE0 == 0xC0 {
        2
    } else if first_byte & 0xF0 == 0xE0 {
        3
    } else {
        4
    }
}

} // verus!
