use text_clean::clean_text;

fn is_ws(c: char) -> bool {
    c.is_whitespace()
}

fn samples() -> Vec<&'static str> {
    vec![
        "",
        " ",
        "   \t\n  ",
        "word",
        "  hello   world  ",
        "a\tb\n\nc",
        "already normal",
        "\u{3000}x\u{a0}\u{a0}y\u{2028}",
        "\r\n lead and trail \r\n",
        "mixed \u{85}\u{1680}\u{2009} runs\u{202f}\u{205f}here",
        "no-ws-at-all",
        "é  ü \t ß",
    ]
}

#[test]
fn empty_input_gives_empty_output() {
    assert_eq!(clean_text(""), "");
}

#[test]
fn whitespace_only_input_gives_empty_output() {
    assert_eq!(clean_text("   \t\n  "), "");
    assert_eq!(clean_text("\u{2000}\u{200a}\u{3000}\u{0b}\u{0c}"), "");
}

#[test]
fn tokens_are_preserved() {
    assert_eq!(clean_text("  hello   world  "), "hello world");
}

#[test]
fn mixed_whitespace_collapses() {
    assert_eq!(clean_text("a\tb\n\nc"), "a b c");
}

#[test]
fn normalized_input_is_unchanged() {
    assert_eq!(clean_text("already normal"), "already normal");
}

#[test]
fn single_token_passes_through() {
    assert_eq!(clean_text("word"), "word");
}

#[test]
fn unicode_whitespace_collapses() {
    assert_eq!(clean_text("\u{3000}x\u{a0}\u{a0}y\u{2028}"), "x y");
    assert_eq!(clean_text("p\u{85}q\u{1680}r\u{2029}s"), "p q r s");
}

#[test]
fn non_whitespace_format_characters_are_kept() {
    // zero width space and the Mongolian vowel separator are not White_Space
    assert_eq!(clean_text(" a\u{200b}b \u{180e} "), "a\u{200b}b \u{180e}");
}

#[test]
fn no_outer_whitespace() {
    for s in samples() {
        let r = clean_text(s);
        assert!(!r.starts_with(is_ws), "{:?}", r);
        assert!(!r.ends_with(is_ws), "{:?}", r);
    }
}

#[test]
fn no_adjacent_whitespace() {
    for s in samples() {
        let r: Vec<char> = clean_text(s).chars().collect();
        for pair in r.windows(2) {
            assert!(!(is_ws(pair[0]) && is_ws(pair[1])), "{:?}", r);
        }
    }
}

#[test]
fn cleaning_twice_is_cleaning_once() {
    for s in samples() {
        let once = clean_text(s);
        assert_eq!(clean_text(&once), once);
    }
}

#[test]
fn words_are_kept_in_order() {
    for s in samples() {
        let r = clean_text(s);
        let before: Vec<&str> = s.split_whitespace().collect();
        let after: Vec<&str> = r.split_whitespace().collect();
        assert_eq!(before, after);
    }
}

#[test]
fn only_single_spaces_separate_words() {
    assert_eq!(clean_text("x \t\r\n\u{a0} y"), "x y");
    assert!(!clean_text("a\tb").contains('\t'));
}
