use ghost_speaker::format::{
    clear_tags, delete_quick_section, is_ellipsis_segment, resplit_pairs_by_raw_ellipsis,
    scope_to_tag, split_by_punctuation, split_by_punctuation_with_raw, split_dialog,
    split_dialog_local, split_keeping_delimiters, strip_quick_section_tags_only, utf8_char_len,
};

#[test]
fn ellipsis_stays_with_preceding_text() {
    assert_eq!(split_keeping_delimiters("あ……い"), vec!["あ……", "い"]);
}

#[test]
fn leading_ellipsis_stands_alone() {
    assert_eq!(split_keeping_delimiters("……い"), vec!["……", "い"]);
}

#[test]
fn quick_section_tags_removed_text_kept() {
    assert_eq!(
        strip_quick_section_tags_only("Hello\\_q...\\_qWorld".to_string()),
        "Hello...World"
    );
}

#[test]
fn quick_section_removed_with_its_text() {
    assert_eq!(delete_quick_section("Hello\\_q...\\_qWorld".to_string()), "HelloWorld");
    assert_eq!(
        delete_quick_section("a\\![quicksection,1]b\\![quicksection,0]c".to_string()),
        "ac"
    );
    assert_eq!(delete_quick_section("a\\_qb".to_string()), "a");
}

#[test]
fn ellipsis_segments_recognized() {
    assert!(is_ellipsis_segment("……"));
    assert!(is_ellipsis_segment("・・"));
    assert!(is_ellipsis_segment(".."));
    assert!(!is_ellipsis_segment("・"));
    assert!(!is_ellipsis_segment("."));
    assert!(!is_ellipsis_segment(""));
    assert!(!is_ellipsis_segment("あ…"));
}

#[test]
fn punctuation_splits_sentences() {
    assert_eq!(
        split_by_punctuation("こんにちは。元気？".to_string()),
        vec!["こんにちは。", "元気？"]
    );
    assert_eq!(split_by_punctuation("あ……い".to_string()), vec!["あ……", "い"]);
    assert_eq!(split_by_punctuation("a!b".to_string()), vec!["a!", "b"]);
    assert!(split_by_punctuation(String::new()).is_empty());
}

#[test]
fn scope_tags() {
    assert_eq!(scope_to_tag(0), "\\0");
    assert_eq!(scope_to_tag(1), "\\1");
    assert_eq!(scope_to_tag(5), "\\p[5]");
    assert_eq!(scope_to_tag(12), "\\p[12]");
}

#[test]
fn tags_cleared() {
    assert_eq!(clear_tags("\\0こんにちは\\w9".to_string()), "こんにちは");
    assert_eq!(clear_tags("\\s[0]あ\\_w[100]い".to_string()), "あい");
    assert_eq!(clear_tags("plain".to_string()), "plain");
}

#[test]
fn dialog_split_by_scope() {
    let d = split_dialog("\\0こんにちは\\1やあ".to_string(), false);
    assert_eq!(d.len(), 2);
    assert_eq!(d[0].text, "こんにちは");
    assert_eq!(d[0].raw_text, "\\0\\0こんにちは");
    assert_eq!(d[0].scope, 0);
    assert_eq!(d[1].text, "やあ");
    assert_eq!(d[1].raw_text, "やあ");
    assert_eq!(d[1].scope, 1);
}

#[test]
fn dialog_split_character_number() {
    let d = split_dialog("あ\\p[3]い".to_string(), false);
    assert_eq!(d.len(), 2);
    assert_eq!(d[0].text, "あ");
    assert_eq!(d[1].text, "い");
    assert_eq!(d[1].scope, 3);
}

#[test]
fn dialog_split_drops_quick_sections_from_spoken_text() {
    let d = split_dialog("あ\\_qい\\_qう".to_string(), false);
    assert_eq!(d.len(), 1);
    assert_eq!(d[0].text, "あう");
    assert_eq!(d[0].raw_text, "あいう");
}

#[test]
fn dialog_split_marks_line_breaks() {
    let d = split_dialog("あ\\nい".to_string(), true);
    assert_eq!(d.len(), 1);
    assert_eq!(d[0].text, "あ\u{0}い");
    let parts = split_by_punctuation(d[0].text.clone());
    assert_eq!(parts, vec!["あ", "い"]);
}

#[test]
fn local_dialogs_keep_tags() {
    let d = split_dialog_local("a\\1b".to_string());
    assert_eq!(d.len(), 2);
    assert_eq!(d[0].text, "a");
    assert_eq!(d[0].scope, 0);
    assert_eq!(d[1].text, "b");
    assert_eq!(d[1].scope, 1);
    assert!(split_dialog_local(String::new()).is_empty());
}

#[test]
fn punctuation_pairs_with_raw_text() {
    let p = split_by_punctuation_with_raw("あ。い".to_string(), "\\0あ。\\w9い".to_string());
    assert_eq!(
        p,
        vec![
            ("あ。".to_string(), "\\0あ。\\w9".to_string()),
            ("い".to_string(), "い".to_string())
        ]
    );
    let single = split_by_punctuation_with_raw("あい".to_string(), "\\0あい".to_string());
    assert_eq!(single, vec![("あい".to_string(), "\\0あい".to_string())]);
}

#[test]
fn raw_pieces_cover_the_raw_text() {
    let raw = "\\0一。\\w9二！\\e";
    let p = split_by_punctuation_with_raw("一。二！".to_string(), raw.to_string());
    let joined: String = p.iter().map(|x| x.1.clone()).collect();
    assert_eq!(joined, raw);
    let firsts: Vec<String> = p.iter().map(|x| x.0.clone()).collect();
    assert_eq!(firsts, split_by_punctuation("一。二！".to_string()));
}

#[test]
fn hidden_ellipsis_resplit() {
    let pairs = vec![("あい".to_string(), "あ\\_q……\\_qい".to_string())];
    let r = resplit_pairs_by_raw_ellipsis(pairs);
    assert_eq!(r.len(), 2);
    assert_eq!(r[0].0, "あ");
    assert_eq!(r[1].0, "い");
    let unchanged = resplit_pairs_by_raw_ellipsis(vec![("あ".to_string(), "あ".to_string())]);
    assert_eq!(unchanged, vec![("あ".to_string(), "あ".to_string())]);
}

#[test]
fn utf8_lengths() {
    assert_eq!(utf8_char_len(0x41), 1);
    assert_eq!(utf8_char_len(0xC3), 2);
    assert_eq!(utf8_char_len(0xE3), 3);
    assert_eq!(utf8_char_len(0xF0), 4);
}

#[test]
fn quoted_brackets_in_tags() {
    assert_eq!(clear_tags("\\![raise,\"a]b\"]x".to_string()), "x");
    assert_eq!(clear_tags("\\![raise,\"a]b".to_string()), "b");
    assert_eq!(clear_tags("\\__q[OnMenuExec,a]メニュー\\__q".to_string()), "メニュー");
    assert_eq!(clear_tags("\\_w[500]a".to_string()), "a");
}

#[test]
fn quick_section_found_far_into_the_text() {
    let far = format!("{}\\_qb", "a".repeat(10000));
    assert_eq!(delete_quick_section(far), "a".repeat(10000));
    let far_closed = format!("{}\\_qX\\_q", "a".repeat(10000));
    assert_eq!(delete_quick_section(far_closed), "a".repeat(10000));
    let wide = format!("{}\\_qb\\_qc", "あ".repeat(3334));
    assert_eq!(delete_quick_section(wide), format!("{}c", "あ".repeat(3334)));
    let near = format!("{}\\_qb", "a".repeat(9999));
    assert_eq!(delete_quick_section(near), "a".repeat(9999));
}

#[test]
fn silent_pieces_carry_their_tags_forward() {
    let d = split_dialog("\\1\\w9\\0あ".to_string(), false);
    assert_eq!(d.len(), 1);
    assert_eq!(d[0].text, "あ");
    assert_eq!(d[0].scope, 0);
    assert_eq!(d[0].raw_text, "\\0\\1\\w9\\0あ");
}
