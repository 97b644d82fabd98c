use macdive_exporter::text::{
    chars_of, is_break_char, is_kept_char, is_white_space, normalize, squeeze_spaces, string_of,
    takes_sentence_case, takes_title_case, trim, TITLE_CASE_LIMIT,
};

#[test]
fn normalize_lowers_the_case() {
    assert_eq!(normalize("FISH"), "fish");
    assert_eq!(normalize("Bony Fish"), "bony fish");
    assert_eq!(normalize("ÉCREVISSE"), "écrevisse");
}

#[test]
fn normalize_squeezes_white_space() {
    assert_eq!(normalize("  Bony \t  Fish\n"), "bony fish");
    assert_eq!(normalize("Bony\u{a0}Fish"), "bony fish");
    assert_eq!(normalize("   "), "");
    assert_eq!(normalize(""), "");
}

#[test]
fn normalize_is_idempotent_on_examples() {
    for name in ["Fish", "  sea   SLUGS ", "Émile  Zola", "x"] {
        let once = normalize(name);
        assert_eq!(normalize(&once), once);
    }
}

#[test]
fn names_that_differ_in_case_and_spacing_share_a_key() {
    assert_eq!(normalize("Sea Slugs"), normalize(" sea   SLUGS "));
    assert_ne!(normalize("Sea Slugs"), normalize("SeaSlugs"));
}

#[test]
fn squeeze_keeps_one_space_between_words() {
    assert_eq!(squeeze_spaces("a  b"), "a b");
    assert_eq!(squeeze_spaces("a b"), "a b");
    assert_eq!(squeeze_spaces(" a"), "a");
    assert_eq!(squeeze_spaces("a "), "a");
    assert_eq!(squeeze_spaces("a\tb\r\nc"), "a b c");
    assert_eq!(squeeze_spaces("\u{3000}a\u{2003}\u{2028}b\u{205f}"), "a b");
    assert_eq!(squeeze_spaces("ab"), "ab");
    assert_eq!(squeeze_spaces(""), "");
}

#[test]
fn trim_removes_white_space_at_both_ends_only() {
    assert_eq!(trim("  a  b  "), "a  b");
    assert_eq!(trim("a"), "a");
    assert_eq!(trim(" \t\n"), "");
    assert_eq!(trim(""), "");
    assert_eq!(trim("\u{a0}x\u{1680}"), "x");
}

#[test]
fn trim_agrees_with_the_standard_library() {
    let samples =
        ["  a  b  ", "\u{85}q\u{2029}", "plain", "\u{200b}zero width stays\u{200b}", " \u{feff}"];
    for s in samples {
        assert_eq!(trim(s), s.trim());
    }
}

#[test]
fn white_space_is_what_unicode_says() {
    let mut c = 0u32;
    while c <= 0x3100 {
        if let Some(ch) = char::from_u32(c) {
            assert_eq!(is_white_space(ch), ch.is_whitespace(), "U+{:04X}", c);
        }
        c += 1;
    }
    assert!(!is_white_space('\u{200b}'));
    assert!(!is_white_space('\u{feff}'));
    assert!(!is_white_space('a'));
}

#[test]
fn characters_round_trip() {
    let chars = chars_of("añb");
    assert_eq!(chars, vec!['a', 'ñ', 'b']);
    assert_eq!(string_of(&chars, 0, 3), "añb");
    assert_eq!(string_of(&chars, 1, 2), "ñ");
    assert_eq!(string_of(&chars, 2, 2), "");
}

#[test]
fn words_end_at_white_space_colons_hyphens_and_dashes() {
    for c in [' ', '\t', '\n', '\u{a0}', '\u{3000}', ':', '-', '\u{2013}', '\u{2014}'] {
        assert!(is_break_char(c), "{:?}", c);
    }
    for c in ['a', 'Z', '0', '_', '.', ',', ';', '/', '\u{2012}', '\u{2015}', '\u{17f}'] {
        assert!(!is_break_char(c), "{:?}", c);
    }
}

#[test]
fn the_title_case_limit_is_a_million() {
    assert_eq!(TITLE_CASE_LIMIT, 1_000_000);
}

fn taken_by_title_case() -> Vec<String> {
    vec![
        String::new(),
        "two words".to_string(),
        "a".repeat(10_001),
        "a".repeat(999_999),
        "é".repeat(999_999),
        "a".repeat(1_000_001) + "B",
        "a".repeat(1_000_001) + ".x",
        "a".repeat(1_000_001) + "..",
        "a".repeat(1_000_000) + "B" + &"a".repeat(10),
        "aB".to_string() + &"a".repeat(2_000_000),
        "a".repeat(999_999) + " " + &"b".repeat(999_999) + "-" + &"c".repeat(999_999),
        "a".repeat(999_999) + "\n" + &"b".repeat(999_999),
        "ab:".to_string() + &"a".repeat(1_000_001) + ".b",
    ]
}

fn refused_by_title_case() -> Vec<String> {
    vec![
        "a".repeat(1_000_000),
        "a".repeat(1_000_002) + "B",
        "a".repeat(1_000_001) + ".",
        "a".repeat(1_000_001) + ". x",
        "a".repeat(1_000_001) + "b",
        "a".repeat(1_000_001) + "É",
        "B".to_string() + &"a".repeat(1_000_000),
        "ab ".to_string() + &"a".repeat(1_000_000),
        "a".repeat(1_000_000) + " ab",
        "a".repeat(600_000) + "_" + &"b".repeat(600_000),
    ]
}

#[test]
fn title_case_takes_what_stays_within_the_budget() {
    for s in taken_by_title_case() {
        assert!(takes_title_case(&s), "{} characters", s.chars().count());
    }
}

#[test]
fn title_case_does_not_take_what_exceeds_the_budget() {
    for s in refused_by_title_case() {
        assert!(!takes_title_case(&s), "{} characters", s.chars().count());
    }
}

#[test]
fn sentence_case_keeps_letters_digits_and_two_more() {
    for c in ['a', 'z', 'A', 'Z', '0', '9', '\u{17f}', '\u{212a}'] {
        assert!(is_kept_char(c), "{:?}", c);
    }
    for c in [' ', '-', '_', '.', '@', '[', '`', '{', '/', ':', 'é', 'ß', '\u{130}', 'Σ'] {
        assert!(!is_kept_char(c), "{:?}", c);
    }
}

#[test]
fn sentence_case_takes_all_but_a_leading_long_s() {
    let taken =
        ["", "plain", "Émile", "a\u{17f}b", "x \u{17f}", "9\u{17f}", "\u{212a}elvin", "- -"];
    for s in taken {
        assert!(takes_sentence_case(s), "{:?}", s);
    }
    let refused =
        ["\u{17f}top", " \u{17f}", "\u{17f}", "-\u{17f}a", "\u{17f}\u{17f}", "é\u{17f}x"];
    for s in refused {
        assert!(!takes_sentence_case(s), "{:?}", s);
    }
}
