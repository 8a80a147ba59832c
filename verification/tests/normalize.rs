use semantic_commands::input::normalize;
use semantic_commands::Input;

#[test]
fn test_normalize() {
    let input = "Hello, World! This is a Test.";
    let expected = "hello world this is a test";
    assert_eq!(normalize(input), expected);
}

#[test]
fn normalize_collapses_double_spaces() {
    assert_eq!(normalize("Hello, World!  Test."), "hello world test");
}

#[test]
fn normalize_of_nothing_is_nothing() {
    assert_eq!(normalize(""), "");
    assert_eq!(normalize("   "), "");
    assert_eq!(normalize("?!...,;"), "");
    assert_eq!(normalize(" \t\r\n"), "");
}

#[test]
fn normalize_trims_both_ends() {
    assert_eq!(normalize("  ping  "), "ping");
    assert_eq!(normalize("...ping..."), "ping");
    assert_eq!(normalize("\tping\n"), "ping");
}

#[test]
fn normalize_turns_tabs_and_newlines_into_one_space() {
    assert_eq!(normalize("what\tis\nthe\r\ndate"), "what is the date");
    assert_eq!(normalize("a \t \n b"), "a b");
}

#[test]
fn normalize_blanks_punctuation_inside_words() {
    assert_eq!(normalize("what's the date"), "what s the date");
    assert_eq!(normalize("price of {coin"), "price of coin");
    assert_eq!(normalize("a-b_c"), "a b c");
}

#[test]
fn normalize_keeps_digits_and_letters_of_any_script() {
    assert_eq!(normalize("Route 66"), "route 66");
    assert_eq!(normalize("ÄRGER, Öl & Übermut"), "ärger öl übermut");
    assert_eq!(normalize("農歷新年!"), "農歷新年");
}

#[test]
fn normalize_knows_white_space_beyond_ascii() {
    assert_eq!(normalize("a\u{00a0}b\u{3000}c\u{2003}d"), "a b c d");
    assert_eq!(normalize("\u{2028}x\u{0085}"), "x");
}

#[test]
fn normalize_lowers_by_the_rules_of_the_whole_string() {
    // A capital sigma at the end of a word becomes the final sigma.
    assert_eq!(normalize("ΟΔΟΣ"), "οδος");
    assert_eq!(normalize("Σ"), "σ");
    // The dotted capital I lowers to an i and a combining dot, which is
    // neither alphanumeric nor white space.
    assert_eq!(normalize("İ"), "i");
}

#[test]
fn normalize_twice_is_normalize_once() {
    let samples = [
        "Hello, World!  Test.",
        "",
        "   ",
        "what's the date",
        "  MIXED case\tAND\nlines ",
        "ΟΔΟΣ ΟΔΟΣ",
        "İstanbul'da",
        "ǅ ǈ ǋ",
        "a\u{00a0}b",
        "ﬁn ﬂag ẞ",
        "x--y--z",
        "1,000.50 €",
    ];
    for sample in samples {
        let once = normalize(sample);
        let twice = normalize(&once);
        assert_eq!(twice, once);
    }
}

#[test]
fn normalized_text_is_tidy() {
    let samples = ["  a  b  ", "a,b", "A\tB\nC", "?", "x"];
    for sample in samples {
        let text = normalize(sample);
        assert!(!text.starts_with(' '));
        assert!(!text.ends_with(' '));
        assert!(!text.contains("  "));
        assert!(text.chars().all(|c| c == ' ' || (c.is_alphanumeric() && !c.is_whitespace())));
    }
}

#[test]
fn input_new_normalizes_and_has_no_embedding() {
    let input = Input::new("Tell me, the DATE!");
    assert_eq!(input.text, "tell me the date");
    assert!(input.embedding.is_none());
}

#[test]
fn input_default_is_empty() {
    let input = Input::default();
    assert_eq!(input.text, "");
    assert!(input.embedding.is_none());
}

#[test]
fn normalize_twice_is_normalize_once_for_every_character() {
    for code in 0..=0x10ffffu32 {
        if let Some(c) = char::from_u32(code) {
            let alone = c.to_string();
            let once = normalize(&alone);
            assert_eq!(normalize(&once), once, "U+{code:04X}");
        }
    }
}

#[test]
fn normalize_twice_is_normalize_once_around_a_final_sigma() {
    for code in 0..=0x2fffu32 {
        if let Some(c) = char::from_u32(code) {
            for sample in [format!("Α{c}Σ"), format!("Σ{c}Α"), format!("ΑΣ{c}"), format!("{c}ΑΣ {c}")] {
                let once = normalize(&sample);
                assert_eq!(normalize(&once), once, "U+{code:04X}");
            }
        }
    }
}
