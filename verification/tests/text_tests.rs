use nodash::order::{code_point, text_less};
use nodash::text::{
    chars_of, contains_chars, decimal_chars, digit_of, i64_to_decimal, is_space_char, matches_at,
    push_text, slice_chars, str_contains, trim_chars, u64_to_decimal,
};

fn chars(s: &str) -> Vec<char> {
    s.chars().collect()
}

#[test]
fn chars_of_gives_the_characters_in_order() {
    assert_eq!(chars_of("aé日"), vec!['a', 'é', '日']);
    assert_eq!(chars_of(""), Vec::<char>::new());
}

#[test]
fn code_point_is_the_scalar_value() {
    assert_eq!(code_point('A'), 65);
    assert_eq!(code_point('\0'), 0);
    assert_eq!(code_point('\u{10FFFF}'), 0x10FFFF);
}

#[test]
fn text_less_is_lexicographic_by_code_point() {
    assert!(text_less(&chars("a"), &chars("b")));
    assert!(text_less(&chars(""), &chars("a")));
    assert!(text_less(&chars("ab"), &chars("abc")));
    assert!(text_less(&chars("Z"), &chars("a")));
    assert!(text_less(&chars("abc"), &chars("abd")));
    assert!(!text_less(&chars("a"), &chars("a")));
    assert!(!text_less(&chars(""), &chars("")));
    assert!(!text_less(&chars("b"), &chars("a")));
    assert!(!text_less(&chars("abc"), &chars("ab")));
    assert!(text_less(&chars("\u{FFFF}"), &chars("\u{10000}")));
}

#[test]
fn matches_at_compares_in_place() {
    assert!(matches_at(&chars("hello"), &chars("ell"), 1));
    assert!(!matches_at(&chars("hello"), &chars("ell"), 0));
    assert!(matches_at(&chars("hello"), &chars(""), 5));
    assert!(matches_at(&chars("hello"), &chars("hello"), 0));
}

#[test]
fn contains_agrees_with_std() {
    let hays = ["", "a", "fish", "/usr/bin/fish", "fi", "fifish", "ffish", "zsh", "aXbXc", "日本語"];
    let needles = ["", "a", "fish", "sh", "X", "Xc", "本", "本語", "fishy", "ff"];
    for h in hays {
        for n in needles {
            assert_eq!(str_contains(h, n), h.contains(n), "for {:?} in {:?}", n, h);
            assert_eq!(contains_chars(&chars(h), &chars(n)), h.contains(n));
        }
    }
}

#[test]
fn white_space_agrees_with_std() {
    let mut n: u32 = 0;
    while n <= 0x3100 {
        if let Some(c) = char::from_u32(n) {
            assert_eq!(is_space_char(c), c.is_whitespace(), "for U+{:04X}", n);
        }
        n += 1;
    }
    assert!(!is_space_char('\u{FEFF}'));
    assert!(!is_space_char('\u{10FFFF}'));
}

#[test]
fn slice_takes_a_range() {
    assert_eq!(slice_chars(&chars("hello"), 1, 3), chars("el"));
    assert_eq!(slice_chars(&chars("hello"), 0, 5), chars("hello"));
    assert_eq!(slice_chars(&chars("hello"), 2, 2), chars(""));
}

#[test]
fn trim_removes_white_space_at_both_ends() {
    assert_eq!(trim_chars(&chars("  a b \n")), chars("a b"));
    assert_eq!(trim_chars(&chars("a")), chars("a"));
    assert_eq!(trim_chars(&chars(" \t\r\n")), chars(""));
    assert_eq!(trim_chars(&chars("")), chars(""));
}

#[test]
fn digits_are_the_ten_characters() {
    let all: Vec<char> = (0..10u64).map(digit_of).collect();
    assert_eq!(all, chars("0123456789"));
}

#[test]
fn decimal_has_no_leading_zeros() {
    assert_eq!(u64_to_decimal(0), "0");
    assert_eq!(u64_to_decimal(7), "7");
    assert_eq!(u64_to_decimal(10), "10");
    assert_eq!(u64_to_decimal(1_000_000), "1000000");
    assert_eq!(u64_to_decimal(907), "907");
    assert_eq!(u64_to_decimal(u64::MAX), "18446744073709551615");
    assert_eq!(decimal_chars(42), chars("42"));
}

#[test]
fn signed_decimal_has_a_minus_sign() {
    assert_eq!(i64_to_decimal(0), "0");
    assert_eq!(i64_to_decimal(15), "15");
    assert_eq!(i64_to_decimal(-1), "-1");
    assert_eq!(i64_to_decimal(-150), "-150");
    assert_eq!(i64_to_decimal(i64::MAX), "9223372036854775807");
    assert_eq!(i64_to_decimal(i64::MIN), "-9223372036854775808");
}

#[test]
fn decimal_agrees_with_std_formatting() {
    for n in [0u64, 1, 9, 10, 11, 99, 100, 101, 12345, 4294967295, 4294967296] {
        assert_eq!(u64_to_decimal(n), format!("{}", n));
    }
    for n in [0i64, -1, 1, -9, -10, 10, -99999, 1_700_000_000_000_000_000] {
        assert_eq!(i64_to_decimal(n), format!("{}", n));
    }
}

#[test]
fn push_text_appends_a_copy() {
    let mut list = vec!["a".to_string()];
    push_text(&mut list, "b");
    push_text(&mut list, "");
    assert_eq!(list, vec!["a".to_string(), "b".to_string(), String::new()]);
}
