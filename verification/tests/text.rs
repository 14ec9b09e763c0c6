use rust_mcp_git::text::{
    blank, comes_before, control_char, decimal_of, first_line_of, insert_text, joined, lines_of,
    replaced_char, same_text, signed_decimal_of, split_text, split_text_limit, starts_with,
    text_occurs, trimmed, trimmed_end_char, white_space, words_of,
};

const SAMPLES: [&str; 14] = [
    "",
    " ",
    "a",
    " a b ",
    "\u{a0}x\u{2003}",
    "one\ntwo\n",
    "one\r\ntwo\r\n\r",
    "\n\n",
    "tab\tsep\u{b}vt",
    "x\u{1f}y\u{1f}\u{1f}z",
    "naïve – ünïcode",
    "trailing\n\n\n",
    "no newline\r",
    "a\u{85}b\u{2028}c",
];

#[test]
fn white_space_is_that_of_the_standard() {
    for c in '\0'..=char::MAX {
        assert_eq!(white_space(c), c.is_whitespace(), "{c:?}");
        assert_eq!(control_char(c), c.is_control(), "{c:?}");
    }
}

#[test]
fn trimming_splitting_and_lines_are_those_of_the_standard() {
    for s in SAMPLES {
        assert_eq!(trimmed(s), s.trim(), "{s:?}");
        assert_eq!(blank(s), trimmed(s).is_empty(), "{s:?}");
        assert_eq!(trimmed_end_char(s, '\n'), s.trim_end_matches('\n'), "{s:?}");
        assert_eq!(lines_of(s), s.lines().collect::<Vec<_>>(), "{s:?}");
        assert_eq!(first_line_of(s), s.lines().next().unwrap_or_default(), "{s:?}");
        assert_eq!(words_of(s), s.split_whitespace().collect::<Vec<_>>(), "{s:?}");
        assert_eq!(
            split_text(s, '\u{1f}'),
            s.split('\u{1f}').collect::<Vec<_>>(),
            "{s:?}"
        );
        for limit in 1..5 {
            assert_eq!(
                split_text_limit(s, '\u{1f}', limit),
                s.splitn(limit, '\u{1f}').collect::<Vec<_>>(),
                "{s:?}"
            );
        }
        assert_eq!(replaced_char(s, 'a', '-'), s.replace('a', "-"), "{s:?}");
        for other in SAMPLES {
            assert_eq!(same_text(s, other), s == other);
            assert_eq!(comes_before(s, other), s < other, "{s:?} {other:?}");
            assert_eq!(text_occurs(s, other), s.contains(other), "{s:?} {other:?}");
            assert_eq!(starts_with(s, other), s.starts_with(other), "{s:?} {other:?}");
        }
    }
}

#[test]
fn numbers_are_written_in_decimal() {
    for n in [0u64, 7, 10, 99, 100, 512, u64::MAX] {
        assert_eq!(decimal_of(n), n.to_string());
    }
    for n in [0i32, 1, -1, 128, i32::MAX, i32::MIN] {
        assert_eq!(signed_decimal_of(n), n.to_string());
    }
}

#[test]
fn joining_puts_the_separator_between() {
    let parts: Vec<String> = vec!["a".to_owned(), "b".to_owned(), "c".to_owned()];
    assert_eq!(joined(&parts, ", "), "a, b, c");
    assert_eq!(joined(&Vec::new(), ", "), "");
}

#[test]
fn insertion_keeps_lists_ascending_without_repetition() {
    let mut list: Vec<String> = Vec::new();
    let input = ["m", "b", "z", "b", "", "ü", "a", "zz", "m"];
    for x in input {
        insert_text(&mut list, x.to_owned());
    }
    let mut expected: Vec<String> = input.iter().map(|x| x.to_string()).collect();
    expected.sort();
    expected.dedup();
    assert_eq!(list, expected);
}
