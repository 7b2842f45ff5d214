use rustream::text::{
    class_has, ends_with, equals_str, from_chars, same_chars, scan, scan_back, starts_with,
    to_chars, trimmed, whitespace, CharClass,
};

fn chars(s: &str) -> Vec<char> {
    s.chars().collect()
}

#[test]
fn strings_become_characters_and_back() {
    assert_eq!(to_chars("aé日"), vec!['a', 'é', '日']);
    assert_eq!(to_chars(""), Vec::<char>::new());
    assert_eq!(from_chars(&['a', 'é', '日']), "aé日");
    assert_eq!(from_chars(&[]), "");
    assert_eq!(from_chars(&to_chars("round trip ü")), "round trip ü");
}

#[test]
fn white_space_is_what_unicode_says() {
    for c in ['\t', '\n', '\u{b}', '\u{c}', '\r', ' ', '\u{85}', '\u{a0}', '\u{1680}', '\u{2000}',
        '\u{2005}', '\u{200a}', '\u{2028}', '\u{2029}', '\u{202f}', '\u{205f}', '\u{3000}']
    {
        assert!(whitespace(c), "{:?}", c);
    }
    for c in ['a', '0', '#', '\u{8}', '\u{e}', '\u{200b}', '\u{180e}', '\u{feff}', 'é', '\u{0}'] {
        assert!(!whitespace(c), "{:?}", c);
    }
}

#[test]
fn white_space_agrees_with_the_standard_library() {
    let mut n: u32 = 0;
    while n <= 0x10ffff {
        if let Some(c) = char::from_u32(n) {
            assert_eq!(whitespace(c), c.is_whitespace(), "{:x}", n);
        }
        n += 1;
    }
}

#[test]
fn classes_hold_their_characters() {
    assert!(class_has(CharClass::Whitespace, ' '));
    assert!(!class_has(CharClass::Whitespace, 'a'));
    assert!(class_has(CharClass::Token, 'a'));
    assert!(class_has(CharClass::Token, '"'));
    assert!(!class_has(CharClass::Token, '\t'));
    assert!(class_has(CharClass::Key, '-'));
    assert!(!class_has(CharClass::Key, '='));
    assert!(!class_has(CharClass::Key, '"'));
    assert!(!class_has(CharClass::Key, ' '));
    assert!(class_has(CharClass::Unquoted, ' '));
    assert!(!class_has(CharClass::Unquoted, '"'));
    assert!(class_has(CharClass::Digit, '0'));
    assert!(class_has(CharClass::Digit, '9'));
    assert!(!class_has(CharClass::Digit, '/'));
    assert!(!class_has(CharClass::Digit, ':'));
    assert!(!class_has(CharClass::Digit, '٣'));
    assert!(class_has(CharClass::LineText, '\r'));
    assert!(!class_has(CharClass::LineText, '\n'));
}

#[test]
fn scan_stops_at_the_first_character_outside_the_class() {
    let s = chars("  ab12 \n x");
    assert_eq!(scan(&s, 0, CharClass::Whitespace), 2);
    assert_eq!(scan(&s, 2, CharClass::Whitespace), 2);
    assert_eq!(scan(&s, 2, CharClass::Token), 6);
    assert_eq!(scan(&s, 4, CharClass::Digit), 6);
    assert_eq!(scan(&s, 0, CharClass::LineText), 7);
    assert_eq!(scan(&s, 8, CharClass::LineText), 10);
    assert_eq!(scan(&s, 10, CharClass::LineText), 10);
    assert_eq!(scan_back(&s, 10, CharClass::Token), 9);
    assert_eq!(scan_back(&s, 9, CharClass::Whitespace), 6);
    assert_eq!(scan_back(&s, 0, CharClass::Whitespace), 0);
    assert_eq!(scan_back(&s, 2, CharClass::Whitespace), 0);
}

#[test]
fn trim_removes_white_space_at_both_ends_only() {
    assert_eq!(trimmed(&chars("  a b \t\r\n")), &chars("a b")[..]);
    assert_eq!(trimmed(&chars("a")), &chars("a")[..]);
    assert_eq!(trimmed(&chars(" \t ")), &chars("")[..]);
    assert_eq!(trimmed(&chars("")), &chars("")[..]);
    assert_eq!(trimmed(&chars("\u{3000}é\u{a0}")), &chars("é")[..]);
    for s in ["  x  ", "\t\ty", "z\n", " a  b ", "\u{2003}w\u{85}", ""] {
        assert_eq!(from_chars(trimmed(&chars(s))), s.trim());
    }
}

#[test]
fn prefixes_suffixes_and_equality() {
    assert!(starts_with(&chars("#EXTINF:-1"), &chars("#EXTINF:")));
    assert!(!starts_with(&chars("#EXTINF"), &chars("#EXTINF:")));
    assert!(!starts_with(&chars("#EXTM3U:"), &chars("#EXTINF:")));
    assert!(starts_with(&chars("abc"), &[]));
    assert!(ends_with(&chars("film.mkv"), &chars(".mkv")));
    assert!(!ends_with(&chars("film.mkv2"), &chars(".mkv")));
    assert!(!ends_with(&chars("kv"), &chars(".mkv")));
    assert!(ends_with(&chars(""), &[]));
    assert!(same_chars(&chars("aé"), &chars("aé")));
    assert!(!same_chars(&chars("aé"), &chars("ae")));
    assert!(!same_chars(&chars("a"), &chars("ab")));
    assert!(equals_str(&chars("tvg-id"), "tvg-id"));
    assert!(!equals_str(&chars("tvg-id"), "tvg-i"));
    assert!(!equals_str(&chars("tvg-i"), "tvg-id"));
    assert!(!equals_str(&chars("tvg-ix"), "tvg-id"));
    assert!(equals_str(&[], ""));
}
