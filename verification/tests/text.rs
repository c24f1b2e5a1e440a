use sgl_chat_stream::text::{
    contains, decimal_string, find, longest_overlap, matches_at, signed_decimal_string, to_chars,
};

fn chars(s: &str) -> Vec<char> {
    s.chars().collect()
}

#[test]
fn to_chars_keeps_every_character_in_order() {
    assert_eq!(to_chars(""), Vec::<char>::new());
    assert_eq!(to_chars("abc"), vec!['a', 'b', 'c']);
    assert_eq!(to_chars("h\u{e9}\u{4e16}"), vec!['h', '\u{e9}', '\u{4e16}']);
}

#[test]
fn matches_at_checks_one_position() {
    let hay = chars("go END now");
    assert!(matches_at(&hay, &chars("END"), 3));
    assert!(!matches_at(&hay, &chars("END"), 2));
    assert!(!matches_at(&hay, &chars("now"), 8));
    assert!(matches_at(&hay, &chars("now"), 7));
    assert!(matches_at(&hay, &chars(""), 10));
    assert!(!matches_at(&hay, &chars(""), 11));
    assert!(!matches_at(&chars("ab"), &chars("abc"), 0));
}

#[test]
fn find_gives_the_leftmost_occurrence() {
    assert_eq!(find(&chars("go END now"), &chars("END")), Some(3));
    assert_eq!(find(&chars("abcabc"), &chars("bc")), Some(1));
    assert_eq!(find(&chars("abcabc"), &chars("abc")), Some(0));
    assert_eq!(find(&chars("aaab"), &chars("aab")), Some(1));
    assert_eq!(find(&chars("abc"), &chars("abc")), Some(0));
    assert_eq!(find(&chars("abc"), &chars("c")), Some(2));
    assert_eq!(find(&chars("abc"), &chars("d")), None);
    assert_eq!(find(&chars("ab"), &chars("abc")), None);
}

#[test]
fn find_of_an_empty_needle_is_position_zero() {
    assert_eq!(find(&chars("abc"), &chars("")), Some(0));
    assert_eq!(find(&chars(""), &chars("")), Some(0));
    assert_eq!(find(&chars(""), &chars("a")), None);
}

#[test]
fn contains_agrees_with_find() {
    assert!(contains(&chars("moonshot-kimi-k2"), &chars("kimi")));
    assert!(!contains(&chars("moonshot-kim"), &chars("kimi")));
    assert!(contains(&chars("x"), &chars("")));
}

#[test]
fn longest_overlap_is_the_longest_proper_beginning_at_the_end() {
    assert_eq!(longest_overlap(&chars("go E"), &chars("END")), 1);
    assert_eq!(longest_overlap(&chars("go EN"), &chars("END")), 2);
    // A whole occurrence is no overlap: the beginning has to be proper.
    assert_eq!(longest_overlap(&chars("go END"), &chars("END")), 0);
    assert_eq!(longest_overlap(&chars("go "), &chars("END")), 0);
    assert_eq!(longest_overlap(&chars("aaa"), &chars("aaaa")), 3);
    assert_eq!(longest_overlap(&chars("xaa"), &chars("aab")), 2);
    assert_eq!(longest_overlap(&chars("E"), &chars("END")), 1);
    assert_eq!(longest_overlap(&chars(""), &chars("END")), 0);
    assert_eq!(longest_overlap(&chars("abc"), &chars("")), 0);
    assert_eq!(longest_overlap(&chars("abc"), &chars("c")), 0);
}

#[test]
fn decimal_string_names_each_digit() {
    let all: Vec<String> = (0u128..10).map(decimal_string).collect();
    assert_eq!(all, vec!["0", "1", "2", "3", "4", "5", "6", "7", "8", "9"]);
    assert_eq!(decimal_string(9876543210), "9876543210");
}

#[test]
fn decimal_string_writes_numerals_without_leading_zeros() {
    assert_eq!(decimal_string(0), "0");
    assert_eq!(decimal_string(7), "7");
    assert_eq!(decimal_string(10), "10");
    assert_eq!(decimal_string(5), "5");
    assert_eq!(decimal_string(1234567890), "1234567890");
    assert_eq!(decimal_string(u128::MAX), u128::MAX.to_string());
}

#[test]
fn signed_decimal_string_puts_a_minus_before_negative_numbers() {
    assert_eq!(signed_decimal_string(0), "0");
    assert_eq!(signed_decimal_string(500), "500");
    assert_eq!(signed_decimal_string(-1), "-1");
    assert_eq!(signed_decimal_string(i32::MIN as i128), "-2147483648");
    assert_eq!(signed_decimal_string(i32::MAX as i128), "2147483647");
    assert_eq!(signed_decimal_string(i128::MIN), i128::MIN.to_string());
    assert_eq!(signed_decimal_string(i128::MAX), i128::MAX.to_string());
}
