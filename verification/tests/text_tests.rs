use releaser::number::{decimal_chars, parse_number};
use releaser::pieces::{join_chars, lines_of, split_chars, strip_leading_chars, text_lines};
use releaser::text::{
    contains_chars, find_chars_from, from_chars, same_text, starts_with_chars, to_chars,
};

fn chars(s: &str) -> Vec<char> {
    s.chars().collect()
}

fn pieces(all: &[&str]) -> Vec<Vec<char>> {
    all.iter().map(|s| chars(s)).collect()
}

#[test]
fn strings_and_characters_turn_into_each_other() {
    for text in ["", "a", "héllo wörld", "line\nline", "\u{1F980} crab"] {
        assert_eq!(to_chars(text), chars(text));
        assert_eq!(from_chars(&chars(text)), text);
    }
    assert!(same_text("abc", "abc"));
    assert!(!same_text("abc", "abd"));
    assert!(!same_text("abc", "ab"));
    assert!(same_text("", ""));
}

#[test]
fn searching_finds_the_first_occurrence() {
    assert_eq!(find_chars_from(&chars("abcabc"), &chars("bc"), 0), Some(1));
    assert_eq!(find_chars_from(&chars("abcabc"), &chars("bc"), 2), Some(4));
    assert_eq!(find_chars_from(&chars("abcabc"), &chars("bc"), 5), None);
    assert_eq!(find_chars_from(&chars("abc"), &chars(""), 0), Some(0));
    assert_eq!(find_chars_from(&chars("abc"), &chars(""), 3), Some(3));
    assert_eq!(find_chars_from(&chars("abc"), &chars(""), 4), None);
    assert_eq!(find_chars_from(&chars(""), &chars("a"), 0), None);
    assert!(contains_chars(&chars("a feat(x)"), &chars("feat(")));
    assert!(!contains_chars(&chars("a feat x"), &chars("feat(")));
    assert!(starts_with_chars(&chars("pkg-v1"), &chars("pkg-v")));
    assert!(!starts_with_chars(&chars("pkg"), &chars("pkg-v")));
}

#[test]
fn splitting_gives_one_piece_more_than_separators() {
    assert_eq!(split_chars(&chars("1.2.3"), '.'), pieces(&["1", "2", "3"]));
    assert_eq!(split_chars(&chars(""), '.'), pieces(&[""]));
    assert_eq!(split_chars(&chars("."), '.'), pieces(&["", ""]));
    assert_eq!(split_chars(&chars("a..b."), '.'), pieces(&["a", "", "b", ""]));
    assert_eq!(split_chars(&chars("abc"), '-'), pieces(&["abc"]));
    for text in ["", "a-b", "-a--b-", "---"] {
        assert_eq!(join_chars(&split_chars(&chars(text), '-'), &chars("-")), chars(text));
    }
}

#[test]
fn lines_end_at_line_feeds() {
    assert_eq!(lines_of(&chars("a\nb\n")), pieces(&["a", "b"]));
    assert_eq!(lines_of(&chars("a\nb")), pieces(&["a", "b"]));
    assert_eq!(lines_of(&chars("")), pieces(&[]));
    assert_eq!(lines_of(&chars("\n")), pieces(&[""]));
    assert_eq!(lines_of(&chars("a\n\nb")), pieces(&["a", "", "b"]));
    assert_eq!(lines_of(&chars("a\r\nb\r")), pieces(&["a", "b\r"]));
    assert_eq!(lines_of(&chars("a\r\r\n")), pieces(&["a\r"]));
    for text in ["", "\n", "a", "a\nb\n", "a\r\nb", "x\n\n\ny\r", "\r\n\r\n"] {
        let expected: Vec<String> = text.lines().map(|line| line.to_string()).collect();
        assert_eq!(text_lines(text), expected);
    }
}

#[test]
fn joining_puts_the_separator_between() {
    assert_eq!(join_chars(&pieces(&["a", "b", "c"]), &chars(", ")), chars("a, b, c"));
    assert_eq!(join_chars(&pieces(&["a"]), &chars(", ")), chars("a"));
    assert_eq!(join_chars(&pieces(&[]), &chars(", ")), chars(""));
    assert_eq!(join_chars(&pieces(&["", ""]), &chars("\n")), chars("\n"));
}

#[test]
fn a_leading_text_is_stripped_as_often_as_it_stands() {
    assert_eq!(strip_leading_chars(&chars("beta.2"), &chars("beta.")), chars("2"));
    assert_eq!(strip_leading_chars(&chars("beta.beta.2"), &chars("beta.")), chars("2"));
    assert_eq!(strip_leading_chars(&chars("beta"), &chars("beta.")), chars("beta"));
    assert_eq!(strip_leading_chars(&chars("xbeta.2"), &chars("beta.")), chars("xbeta.2"));
    assert_eq!(strip_leading_chars(&chars("abc"), &chars("")), chars("abc"));
    assert_eq!(strip_leading_chars(&chars("aaa"), &chars("a")), chars(""));
}

#[test]
fn numbers_are_read_as_the_standard_library_reads_them() {
    for text in [
        "0", "7", "42", "007", "+5", "+", "", "-1", "4294967295", "4294967296", "99999999999999999999",
        "1a", "a1", " 1", "1 ", "++1", "+-1", "1.0", "00000000000000000000001", "٣",
    ] {
        assert_eq!(parse_number(&chars(text)), text.parse::<u32>().ok(), "{:?}", text);
    }
}

#[test]
fn numbers_are_written_in_base_ten() {
    for n in [0u64, 1, 9, 10, 11, 99, 100, 4294967295, 4294967296, u64::MAX] {
        assert_eq!(decimal_chars(n), chars(&n.to_string()));
    }
}
