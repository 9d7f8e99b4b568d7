use spaces::order::{dedupe, holds, merge_into};
use spaces::text::{
    chars_contain, chars_occur_at, chars_of, contains, decimal, ends_with, find_char, join_text,
    one,
    lines, same_text, starts_with, strip_prefix, trim, with,
};

fn strs(items: &[&str]) -> Vec<String> {
    items.iter().map(|s| s.to_string()).collect()
}

#[test]
fn same_text_compares_characters() {
    assert!(same_text("abc", "abc"));
    assert!(!same_text("abc", "abd"));
    assert!(!same_text("abc", "ab"));
    assert!(same_text("", ""));
}

#[test]
fn chars_of_keeps_order_and_counts_characters_not_bytes() {
    assert_eq!(chars_of("héllo"), vec!['h', 'é', 'l', 'l', 'o']);
    assert_eq!(chars_of(""), Vec::<char>::new());
}

#[test]
fn occurrence_at_a_position() {
    let s = chars_of("a/../b");
    let p = chars_of("/../");
    assert!(chars_occur_at(&s, &p, 1));
    assert!(!chars_occur_at(&s, &p, 0));
    assert!(!chars_occur_at(&s, &p, 3));
    assert!(!chars_occur_at(&s, &p, 100));
    assert!(chars_occur_at(&s, &chars_of(""), 6));
    assert!(!chars_occur_at(&s, &chars_of(""), 7));
}

#[test]
fn containment_finds_first_middle_and_last_positions() {
    assert!(chars_contain(&chars_of("abcabc"), &chars_of("abc")));
    assert!(chars_contain(&chars_of("xxabc"), &chars_of("abc")));
    assert!(chars_contain(&chars_of("xabcx"), &chars_of("abc")));
    assert!(!chars_contain(&chars_of("ab"), &chars_of("abc")));
    assert!(!chars_contain(&chars_of("abxc"), &chars_of("abc")));
    assert!(chars_contain(&chars_of(""), &chars_of("")));
}

#[test]
fn prefix_suffix_and_infix_on_strings() {
    assert!(starts_with("spaces.copy", "spaces."));
    assert!(!starts_with("space", "spaces."));
    assert!(starts_with("x", ""));
    assert!(ends_with("a/..", "/.."));
    assert!(!ends_with("a/..b", "/.."));
    assert!(!ends_with("..", "/.."));
    assert!(contains("a/../b", "/../"));
    assert!(!contains("a/.../b", "/../"));
}

#[test]
fn strip_prefix_gives_the_rest_or_nothing() {
    assert_eq!(strip_prefix("./a/b", "./"), Some("a/b".to_string()));
    assert_eq!(strip_prefix("a/b", "./"), None);
    assert_eq!(strip_prefix("./", "./"), Some(String::new()));
    assert_eq!(strip_prefix("é-x", "é-"), Some("x".to_string()));
}

#[test]
fn join_text_appends() {
    assert_eq!(join_text("ab", "cd"), "abcd");
    assert_eq!(join_text("", "é"), "é");
    assert_eq!(join_text("x", ""), "x");
}

#[test]
fn find_char_gives_first_position_or_length() {
    assert_eq!(find_char(&chars_of("a b c"), ' '), 1);
    assert_eq!(find_char(&chars_of("abc"), ' '), 3);
    assert_eq!(find_char(&chars_of(""), ' '), 0);
}

#[test]
fn small_vectors_of_strings() {
    assert_eq!(one("a"), strs(&["a"]));
    assert_eq!(with(one("a"), "b"), strs(&["a", "b"]));
}

#[test]
fn holds_looks_for_equal_text() {
    let items = strs(&["a", "b"]);
    assert!(holds(&items, "b"));
    assert!(!holds(&items, "c"));
    assert!(!holds(&Vec::new(), "a"));
}

#[test]
fn dedupe_keeps_first_occurrences_in_order() {
    assert_eq!(dedupe(strs(&["b", "a", "b", "c", "a"])), strs(&["b", "a", "c"]));
    assert_eq!(dedupe(Vec::new()), Vec::<String>::new());
    assert_eq!(dedupe(strs(&["x", "x", "x"])), strs(&["x"]));
}

#[test]
fn dedupe_twice_is_dedupe_once() {
    let once = dedupe(strs(&["b", "a", "b", "c", "a"]));
    let twice = dedupe(once.clone());
    assert_eq!(once, twice);
}

#[test]
fn merge_into_appends_only_what_is_new() {
    let mut acc = strs(&["a", "b"]);
    merge_into(&mut acc, &strs(&["b", "c", "a", "d", "c"]));
    assert_eq!(acc, strs(&["a", "b", "c", "d"]));
}

#[test]
fn trim_removes_whitespace_at_both_ends_only() {
    assert_eq!(trim("  a b \t\r\n"), "a b");
    assert_eq!(trim("\u{a0}x\u{2003}"), "x");
    assert_eq!(trim(""), "");
    assert_eq!(trim(" \n\t "), "");
    assert_eq!(trim("x"), "x");
    for text in ["  a b \t\r\n", "\u{a0}x\u{2003}", " \u{85}y", "z\u{3000} ", "\u{200b}w"] {
        assert_eq!(trim(text), text.trim());
    }
}

#[test]
fn lines_split_at_line_feeds() {
    assert_eq!(lines(""), Vec::<String>::new());
    assert_eq!(lines("a"), strs(&["a"]));
    assert_eq!(lines("a\n"), strs(&["a"]));
    assert_eq!(lines("a\nb"), strs(&["a", "b"]));
    assert_eq!(lines("a\n\nb\n"), strs(&["a", "", "b"]));
    assert_eq!(lines("\n"), strs(&[""]));
    assert_eq!(lines("a\r\nb\r\n"), strs(&["a", "b"]));
    assert_eq!(lines("a\rb\n"), strs(&["a\rb"]));
    assert_eq!(lines("a\r"), strs(&["a\r"]));
    assert_eq!(lines("\r\n"), strs(&[""]));
    assert_eq!(lines("a\r\r\n"), strs(&["a\r"]));
    for text in ["", "a", "a\n", "\n\n", "a\r\nb", "a\r", "x\n\r\ny\r", "\r\n\r\n", "é\nü"] {
        let expected: Vec<String> = text.lines().map(|l| l.to_string()).collect();
        assert_eq!(lines(text), expected);
    }
}

#[test]
fn decimal_writes_numbers_without_leading_zeros() {
    assert_eq!(decimal(0), "0");
    assert_eq!(decimal(7), "7");
    assert_eq!(decimal(10), "10");
    assert_eq!(decimal(1234567890), "1234567890");
    assert_eq!(decimal(usize::MAX), usize::MAX.to_string());
}
