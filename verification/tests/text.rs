use semantic_commands::text::{collapse, mark_words};

#[test]
fn mark_words_marks_letters_and_digits() {
    assert_eq!(mark_words("a b,ç1"), vec![true, false, true, false, true, true]);
    assert_eq!(mark_words(""), Vec::<bool>::new());
    assert_eq!(mark_words("\t\u{00a0}-_"), vec![false, false, false, false]);
    assert_eq!(mark_words("農9"), vec![true, true]);
}

#[test]
fn collapse_joins_the_marked_runs() {
    let marks = vec![false, true, false, false, true, true, false];
    assert_eq!(collapse(",a  bc!", &marks), "a bc");
    assert_eq!(collapse("abc", &vec![true, true, true]), "abc");
    assert_eq!(collapse("abc", &vec![true, false, true]), "a c");
    assert_eq!(collapse("abc", &vec![false, false, false]), "");
    assert_eq!(collapse("", &vec![]), "");
}

#[test]
fn collapse_keeps_marked_characters_whatever_they_are() {
    assert_eq!(collapse("a b", &vec![true, true, true]), "a b");
    assert_eq!(collapse("  ", &vec![true, false]), " ");
    assert_eq!(collapse("x,y", &vec![false, true, false]), ",");
}

#[test]
fn collapse_takes_characters_without_a_mark_as_unmarked() {
    assert_eq!(collapse("abcd", &vec![true, true]), "ab");
    assert_eq!(collapse("abcd", &vec![]), "");
    assert_eq!(collapse("ab", &vec![true, false, true, true]), "a");
}

#[test]
fn collapse_by_word_marks_is_the_tidy_text() {
    let text = "  what's\tthe   date?  ";
    assert_eq!(collapse(text, &mark_words(text)), "what s the date");
}

#[test]
fn stated_white_space_is_white_space_and_parts_words() {
    for c in [' ', '\t', '\n', '\u{a0}'] {
        assert!(c.is_whitespace());
        assert_eq!(mark_words(&c.to_string()), vec![false]);
        let text = format!("a{c}b");
        assert_eq!(collapse(&text, &mark_words(&text)), "a b");
    }
}
