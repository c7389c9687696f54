use people_store::text::blank;
use people_store::text::chars_of;
use people_store::text::is_whitespace;
use people_store::text::normalize_name;
use people_store::text::same_text;

#[test]
fn normalize_collapses_and_trims() {
    assert_eq!(normalize_name("  Ann   Lee  "), "Ann Lee");
}

#[test]
fn normalize_keeps_a_clean_name() {
    assert_eq!(normalize_name("Ann Lee"), "Ann Lee");
    assert_eq!(normalize_name("X"), "X");
}

#[test]
fn normalize_of_blank_is_empty() {
    assert_eq!(normalize_name(""), "");
    assert_eq!(normalize_name("   "), "");
    assert_eq!(normalize_name("\t\r\n \u{a0}\u{3000}"), "");
}

#[test]
fn normalize_treats_every_white_space_alike() {
    assert_eq!(normalize_name("a\tb\nc\u{2003}d\u{85}e"), "a b c d e");
    assert_eq!(normalize_name("\u{feff}a"), "\u{feff}a");
}

#[test]
fn normalize_agrees_with_split_whitespace() {
    for s in ["", " ", "a", " a", "a ", "a  b", "  Ann \t Lee \n", "x\u{1680}y\u{202f}z\u{205f}"] {
        let expected = s.split_whitespace().collect::<Vec<_>>().join(" ");
        assert_eq!(normalize_name(s), expected);
    }
}

#[test]
fn normalize_twice_changes_nothing() {
    for s in ["  Ann   Lee  ", "a\tb", "", "  ", "one"] {
        let once = normalize_name(s);
        assert_eq!(normalize_name(&once), once);
    }
}

#[test]
fn white_space_is_what_char_says() {
    let mut n: u32 = 0;
    while n <= 0x10ffff {
        if let Some(c) = char::from_u32(n) {
            assert_eq!(is_whitespace(c), c.is_whitespace(), "U+{:04X}", n);
        }
        n += 1;
    }
    assert!(!is_whitespace('\u{feff}'));
    assert!(!is_whitespace('\u{200b}'));
}

#[test]
fn blank_texts() {
    assert!(blank(""));
    assert!(blank(" \n\t "));
    assert!(!blank(" x "));
    assert!(!blank("\u{feff}"));
}

#[test]
fn same_text_compares_characters() {
    assert!(same_text("abc", "abc"));
    assert!(!same_text("abc", "abd"));
    assert!(!same_text("abc", "ab"));
    assert!(same_text("", ""));
}

#[test]
fn chars_of_lists_the_characters() {
    assert_eq!(chars_of("a\u{416}b"), vec!['a', '\u{416}', 'b']);
    assert_eq!(chars_of(""), Vec::<char>::new());
}
