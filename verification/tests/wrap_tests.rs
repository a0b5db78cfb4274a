use og_image_worker::wrap::is_whitespace;
use og_image_worker::wrap::split_words;
use og_image_worker::wrap::wrap_text;

#[test]
fn wrap_of_nothing_is_no_line() {
    assert_eq!(wrap_text("", 10), Vec::<String>::new());
    assert_eq!(wrap_text("", 0), Vec::<String>::new());
    assert_eq!(wrap_text("   \t\n ", 10), Vec::<String>::new());
}

#[test]
fn wrap_keeps_a_short_text_on_one_line() {
    assert_eq!(wrap_text("duty, righteousness", 70), vec!["duty, righteousness"]);
    assert_eq!(wrap_text("Hope", 60), vec!["Hope"]);
}

#[test]
fn wrap_breaks_where_the_next_word_does_not_fit() {
    assert_eq!(
        wrap_text("the quick brown fox jumps over the lazy dog", 10),
        vec!["the quick", "brown fox", "jumps over", "the lazy", "dog"]
    );
}

#[test]
fn wrap_fills_a_line_to_the_width_exactly() {
    assert_eq!(wrap_text("ab cd", 5), vec!["ab cd"]);
    assert_eq!(wrap_text("ab cd", 4), vec!["ab", "cd"]);
    assert_eq!(wrap_text("ab cd ef", 5), vec!["ab cd", "ef"]);
}

#[test]
fn wrap_gives_an_overlong_word_a_line_of_its_own() {
    assert_eq!(
        wrap_text("a pneumonoultramicroscopic b", 5),
        vec!["a", "pneumonoultramicroscopic", "b"]
    );
    assert_eq!(wrap_text("abcdef", 3), vec!["abcdef"]);
}

#[test]
fn wrap_at_width_zero_puts_each_word_on_its_line() {
    assert_eq!(wrap_text("a b c", 0), vec!["a", "b", "c"]);
    assert_eq!(wrap_text("a b c", 1), vec!["a", "b", "c"]);
    assert_eq!(wrap_text("a b c", 3), vec!["a b", "c"]);
}

#[test]
fn wrap_drops_white_space_at_both_ends_and_runs_of_it() {
    assert_eq!(wrap_text("  hello   world  ", 20), vec!["hello world"]);
    assert_eq!(wrap_text("one\ntwo\tthree\r\nfour", 9), vec!["one two", "three", "four"]);
    assert_eq!(wrap_text("a\u{a0}b\u{3000}c\u{2003}d", 80), vec!["a b c d"]);
}

#[test]
fn wrap_counts_characters() {
    assert_eq!(wrap_text("éé éé", 5), vec!["éé éé"]);
    assert_eq!(wrap_text("éé éé", 4), vec!["éé", "éé"]);
    assert_eq!(wrap_text("धर्म कर्म", 9), vec!["धर्म कर्म"]);
}

#[test]
fn wrap_lines_are_within_the_width_or_single_words() {
    let text = "In a village of La Mancha, the name of which I have no desire to call to mind, \
                there lived not long since one of those gentlemen that keep a lance in the \
                lance-rack, an old buckler, a lean hack, and a greyhound for coursing.";
    for width in 0..100usize {
        let words = split_words(text);
        for line in wrap_text(text, width) {
            assert!(line.chars().count() <= width || words.contains(&line));
            assert!(!line.is_empty());
        }
    }
}

#[test]
fn wrap_lines_joined_by_spaces_are_the_normalised_text() {
    let text = "  In a   village of La Mancha,\nthe name of which\tI have no desire   ";
    let normalised = text.split_whitespace().collect::<Vec<_>>().join(" ");
    for width in 0..60usize {
        assert_eq!(wrap_text(text, width).join(" "), normalised);
    }
}

#[test]
fn wrap_is_greedy() {
    let text = "aaa bb cc ddddd e f";
    let lines = wrap_text(text, 6);
    assert_eq!(lines, vec!["aaa bb", "cc", "ddddd", "e f"]);
}

#[test]
fn split_words_gives_the_runs_between_white_space() {
    assert_eq!(split_words(""), Vec::<String>::new());
    assert_eq!(split_words(" \n "), Vec::<String>::new());
    assert_eq!(split_words("a"), vec!["a"]);
    assert_eq!(split_words("  ab  cd e "), vec!["ab", "cd", "e"]);
    assert_eq!(split_words("x-y,z"), vec!["x-y,z"]);
}

#[test]
fn split_words_splits_as_the_standard_library_does() {
    let texts = [
        "",
        " ",
        "a b",
        "\u{85}a\u{1680}b\u{2028}c\u{2029}d\u{202f}e\u{205f}f\u{feff}g\u{200b}h",
        "tab\tnew\nline\u{b}vt\u{c}ff\rcr",
    ];
    for text in texts {
        let expected: Vec<String> = text.split_whitespace().map(|w| w.to_string()).collect();
        assert_eq!(split_words(text), expected);
    }
}

#[test]
fn is_whitespace_is_that_of_the_standard_library() {
    let mut n: u32 = 0;
    while n <= 0x10ffff {
        if let Some(c) = char::from_u32(n) {
            assert_eq!(is_whitespace(c), c.is_whitespace(), "U+{:04X}", n);
        }
        n += 1;
    }
}
