use zj_which_key::text::{
    byte_width, decimal_string, fitting_prefix, parse_usize, starts_with, text_at_most,
};

#[test]
fn decimal_numerals() {
    assert_eq!(decimal_string(0), "0");
    assert_eq!(decimal_string(7), "7");
    assert_eq!(decimal_string(10), "10");
    assert_eq!(decimal_string(14), "14");
    assert_eq!(decimal_string(251), "251");
    assert_eq!(decimal_string(1000), "1000");
    assert_eq!(decimal_string(18446744073709551615), "18446744073709551615");
}

#[test]
fn numbers_are_read_from_digits() {
    assert_eq!(parse_usize("0"), Some(0));
    assert_eq!(parse_usize("20"), Some(20));
    assert_eq!(parse_usize("007"), Some(7));
    assert_eq!(parse_usize("+5"), Some(5));
    assert_eq!(parse_usize("4294967295"), Some(4294967295));
}

#[test]
fn what_is_no_number_is_not_read() {
    assert_eq!(parse_usize(""), None);
    assert_eq!(parse_usize("+"), None);
    assert_eq!(parse_usize("-1"), None);
    assert_eq!(parse_usize("++1"), None);
    assert_eq!(parse_usize("1+"), None);
    assert_eq!(parse_usize(" 1"), None);
    assert_eq!(parse_usize("1 "), None);
    assert_eq!(parse_usize("12a"), None);
    assert_eq!(parse_usize("abc"), None);
    assert_eq!(parse_usize("1_000"), None);
    assert_eq!(parse_usize("٣"), None);
    assert_eq!(parse_usize("1.5"), None);
}

#[test]
fn a_number_too_large_is_not_read() {
    assert_eq!(parse_usize("340282366920938463463374607431768211456"), None);
    assert_eq!(parse_usize("99999999999999999999999999"), None);
    assert_eq!(parse_usize(&usize::MAX.to_string()), Some(usize::MAX));
    let mut beyond = usize::MAX.to_string();
    beyond.push('0');
    assert_eq!(parse_usize(&beyond), None);
}

#[test]
fn reading_agrees_with_the_standard_library() {
    let samples = vec![
        "", "0", "1", "+1", "-1", "+", "00", "+00", "12", "1a", "a1", "+-1", "18446744073709551615",
        "18446744073709551616", "18446744073709551614", "4294967296", " 3", "3 ", "٣", "१२",
    ];
    for s in samples {
        assert_eq!(parse_usize(s), s.parse::<usize>().ok());
    }
}

#[test]
fn writing_and_reading_give_the_number_back() {
    for n in [0usize, 1, 9, 10, 14, 99, 100, 12345, 4294967295] {
        assert_eq!(parse_usize(&decimal_string(n as u64)), Some(n));
        assert_eq!(decimal_string(n as u64), n.to_string());
    }
}

#[test]
fn width_counts_bytes() {
    assert_eq!(byte_width(""), 0);
    assert_eq!(byte_width("abc"), 3);
    assert_eq!(byte_width("é"), 2);
    assert_eq!(byte_width("←"), 3);
    assert_eq!(byte_width("…"), 3);
    assert_eq!(byte_width("😀"), 4);
    assert_eq!(byte_width("← Back to Normal"), 18);
    assert_eq!(byte_width(" Ctrl+g "), 8);
}

#[test]
fn the_prefix_that_fits() {
    assert_eq!(fitting_prefix("hello", 3), "hel");
    assert_eq!(fitting_prefix("hello", 5), "hello");
    assert_eq!(fitting_prefix("hello", 9), "hello");
    assert_eq!(fitting_prefix("hello", 0), "");
    assert_eq!(fitting_prefix("", 4), "");
    assert_eq!(fitting_prefix("← Back", 1), "");
    assert_eq!(fitting_prefix("← Back", 2), "");
    assert_eq!(fitting_prefix("← Back", 3), "←");
    assert_eq!(fitting_prefix("← Back", 4), "← ");
    assert_eq!(fitting_prefix("aé😀b", 1), "a");
    assert_eq!(fitting_prefix("aé😀b", 2), "a");
    assert_eq!(fitting_prefix("aé😀b", 3), "aé");
    assert_eq!(fitting_prefix("aé😀b", 6), "aé");
    assert_eq!(fitting_prefix("aé😀b", 7), "aé😀");
    assert_eq!(fitting_prefix("aé😀b", 8), "aé😀b");
}

#[test]
fn prefixes() {
    assert!(starts_with("← Back to Normal", "← Back"));
    assert!(starts_with("→ Pane mode", "→"));
    assert!(!starts_with("→ Pane mode", "← Back"));
    assert!(!starts_with("Back", "← Back"));
    assert!(starts_with("abc", ""));
    assert!(starts_with("", ""));
    assert!(!starts_with("", "a"));
    assert!(starts_with("abc", "abc"));
    assert!(!starts_with("ab", "abc"));
    assert!(!starts_with("abd", "abc"));
}

#[test]
fn the_order_of_labels() {
    assert!(text_at_most("", ""));
    assert!(text_at_most("", "a"));
    assert!(!text_at_most("a", ""));
    assert!(text_at_most("a", "a"));
    assert!(text_at_most("a", "b"));
    assert!(!text_at_most("b", "a"));
    assert!(text_at_most("B", "a"));
    assert!(text_at_most("F1", "F12"));
    assert!(!text_at_most("F12", "F1"));
    assert!(text_at_most("F12", "F2"));
    assert!(text_at_most("z", "←"));
    assert!(text_at_most("←", "↑"));
    assert!(text_at_most("é", "←"));
    assert!(text_at_most("←", "😀"));
}

#[test]
fn the_order_of_labels_is_that_of_the_standard_library() {
    let samples = vec!["", "a", "b", "ab", "B", "Ctrl+a", "F1", "F12", "←", "→", "é", "😀", "?", "1"];
    for a in &samples {
        for b in &samples {
            assert_eq!(text_at_most(a, b), a <= b);
        }
    }
}
