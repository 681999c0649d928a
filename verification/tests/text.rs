use listing_watch::text::{chars_of, find_phrase, phrase_at, remove_class, same_chars, same_text,
    strip_bounds, strip_end_bound, strip_start_bound, trim_text, CharClass};

fn cs(s: &str) -> Vec<char> {
    s.chars().collect()
}

#[test]
fn chars_of_gives_the_characters() {
    assert_eq!(chars_of("a\u{e9}z"), vec!['a', '\u{e9}', 'z']);
    assert_eq!(chars_of(""), Vec::<char>::new());
}

#[test]
fn trim_text_is_str_trim() {
    for s in ["", " ", "  a b  ", "\t\n x\u{a0}\u{3000}", "x", "\u{2003}y\u{2028}", "a\u{200b}"] {
        assert_eq!(trim_text(s), s.trim().to_string());
    }
}

#[test]
fn char_classes() {
    for c in ['\u{9}', '\u{a}', '\u{b}', '\u{c}', '\u{d}', ' ', '\u{85}', '\u{a0}', '\u{1680}',
        '\u{2000}', '\u{200a}', '\u{2028}', '\u{2029}', '\u{202f}', '\u{205f}', '\u{3000}'] {
        assert!(CharClass::Space.contains(c));
        assert!(c.is_whitespace());
    }
    for c in ['a', '0', '\u{200b}', '\u{8}', '\u{e}', '\u{1f}', '\u{feff}'] {
        assert!(!CharClass::Space.contains(c));
        assert!(!c.is_whitespace());
    }
    assert!(CharClass::Letter.contains('k') && CharClass::Letter.contains('Z'));
    assert!(!CharClass::Letter.contains('1') && !CharClass::Letter.contains('\u{e9}'));
    assert!(CharClass::Digit.contains('0') && CharClass::Digit.contains('9'));
    assert!(!CharClass::Digit.contains('a') && !CharClass::Digit.contains('\u{661}'));
    assert!(CharClass::Grouping.contains(',') && !CharClass::Grouping.contains('$'));
    assert!(CharClass::Currency.contains(',') && CharClass::Currency.contains('$'));
    assert!(!CharClass::Currency.contains('.'));
}

#[test]
fn find_phrase_finds_the_first() {
    assert_eq!(find_phrase(&cs("abcabc"), &cs("bc")), Some(1));
    assert_eq!(find_phrase(&cs("abcabc"), &cs("abcabc")), Some(0));
    assert_eq!(find_phrase(&cs("abcabc"), &cs("c")), Some(2));
    assert_eq!(find_phrase(&cs("abcabc"), &cs("cb")), None);
    assert_eq!(find_phrase(&cs("abc"), &cs("abcd")), None);
    assert_eq!(find_phrase(&cs("abc"), &cs("")), Some(0));
    assert_eq!(find_phrase(&cs(""), &cs("")), Some(0));
    assert_eq!(find_phrase(&cs(""), &cs("a")), None);
    assert_eq!(find_phrase(&cs("aab"), &cs("ab")), Some(1));
}

#[test]
fn phrase_at_positions() {
    assert!(phrase_at(&cs("abc"), &cs("bc"), 1));
    assert!(!phrase_at(&cs("abc"), &cs("bc"), 0));
    assert!(!phrase_at(&cs("abc"), &cs("bc"), 2));
    assert!(!phrase_at(&cs("abc"), &cs("bc"), 7));
    assert!(phrase_at(&cs("abc"), &cs(""), 3));
    assert!(!phrase_at(&cs("abc"), &cs(""), 4));
}

#[test]
fn same_text_and_chars() {
    assert!(same_text("h2", "h2"));
    assert!(!same_text("h2", "H2"));
    assert!(!same_text("h2", "h2 "));
    assert!(same_text("", ""));
    assert!(same_chars(&cs("ab"), &cs("ab")));
    assert!(!same_chars(&cs("ab"), &cs("ba")));
}

#[test]
fn remove_class_keeps_the_rest_in_order() {
    assert_eq!(remove_class(&cs("$1,2$3,"), CharClass::Currency), cs("123"));
    assert_eq!(remove_class(&cs("$1,2$3,"), CharClass::Grouping), cs("$12$3"));
    assert_eq!(remove_class(&cs(""), CharClass::Currency), cs(""));
}

#[test]
fn strip_bounds_of_classes() {
    assert_eq!(strip_bounds(&cs("  ab  "), CharClass::Space), (2, 4));
    assert_eq!(strip_bounds(&cs("    "), CharClass::Space), (4, 4));
    assert_eq!(strip_bounds(&cs(""), CharClass::Space), (0, 0));
    assert_eq!(strip_start_bound(&cs("12ab"), CharClass::Digit), 2);
    assert_eq!(strip_end_bound(&cs("12 km"), 0, 5, CharClass::Letter), 3);
    assert_eq!(strip_end_bound(&cs("12 km"), 0, 3, CharClass::Space), 2);
    assert_eq!(strip_end_bound(&cs("kmkm"), 1, 3, CharClass::Letter), 1);
}
