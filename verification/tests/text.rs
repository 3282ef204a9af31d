use oursh::text::{chars_of, decimal_i32, decimal_u64, join, parse_i32, spells, split_assignment};

#[test]
fn chars_of_gives_the_characters_in_order() {
    assert_eq!(chars_of("aé\n"), vec!['a', 'é', '\n']);
    assert_eq!(chars_of(""), Vec::<char>::new());
}

#[test]
fn decimal_u64_writes_numbers_without_leading_zeros() {
    assert_eq!(decimal_u64(0), "0");
    assert_eq!(decimal_u64(7), "7");
    assert_eq!(decimal_u64(10), "10");
    assert_eq!(decimal_u64(1234567890), "1234567890");
    assert_eq!(decimal_u64(u64::MAX), "18446744073709551615");
}

#[test]
fn decimal_i32_writes_the_sign_of_negative_numbers() {
    assert_eq!(decimal_i32(0), "0");
    assert_eq!(decimal_i32(4242), "4242");
    assert_eq!(decimal_i32(-1), "-1");
    assert_eq!(decimal_i32(i32::MAX), "2147483647");
    assert_eq!(decimal_i32(i32::MIN), "-2147483648");
}

#[test]
fn parse_i32_reads_decimal_numbers() {
    assert_eq!(parse_i32("0"), Some(0));
    assert_eq!(parse_i32("42"), Some(42));
    assert_eq!(parse_i32("007"), Some(7));
    assert_eq!(parse_i32("+5"), Some(5));
    assert_eq!(parse_i32("-7"), Some(-7));
    assert_eq!(parse_i32("-0"), Some(0));
}

#[test]
fn parse_i32_accepts_exactly_the_range_of_i32() {
    assert_eq!(parse_i32("2147483647"), Some(i32::MAX));
    assert_eq!(parse_i32("2147483648"), None);
    assert_eq!(parse_i32("-2147483648"), Some(i32::MIN));
    assert_eq!(parse_i32("-2147483649"), None);
    assert_eq!(parse_i32("99999999999999999999999999"), None);
    assert_eq!(parse_i32("-99999999999999999999999999"), None);
}

#[test]
fn parse_i32_refuses_what_is_no_number() {
    for text in ["", "-", "+", "4x", "x4", " 4", "4 ", "--4", "+-4", "4.0", "0x10", "٣"] {
        assert_eq!(parse_i32(text), None, "{:?}", text);
    }
}

#[test]
fn parse_i32_agrees_with_the_standard_library() {
    let samples = [
        "0", "1", "-1", "+1", "12345", "-12345", "2147483647", "2147483648", "-2147483648",
        "-2147483649", "", "-", "+", "1a", "a1", "00000000000000000001", "+0", "-00",
        "4294967296", " 1", "1 ", "1_000",
    ];
    for text in samples {
        assert_eq!(parse_i32(text), text.parse::<i32>().ok(), "{:?}", text);
    }
}

#[test]
fn split_assignment_splits_at_the_first_equals_sign() {
    let pair = |k: &str, v: &str| Some((k.to_string(), v.to_string()));
    assert_eq!(split_assignment("A=1"), pair("A", "1"));
    assert_eq!(split_assignment("A=b=c"), pair("A", "b=c"));
    assert_eq!(split_assignment("A="), pair("A", ""));
    assert_eq!(split_assignment("=v"), pair("", "v"));
    assert_eq!(split_assignment("="), pair("", ""));
    assert_eq!(split_assignment("é=ü"), pair("é", "ü"));
}

#[test]
fn split_assignment_refuses_text_without_equals_sign() {
    assert_eq!(split_assignment("A"), None);
    assert_eq!(split_assignment(""), None);
}

#[test]
fn join_puts_the_separator_between_the_words() {
    let words: Vec<String> = ["a", "b c", ""].iter().map(|w| w.to_string()).collect();
    assert_eq!(join(&words, " "), "a b c ");
    assert_eq!(join(&words, ", "), "a, b c, ");
    assert_eq!(join(&words[..1].to_vec(), " "), "a");
    assert_eq!(join(&Vec::new(), " "), "");
}

#[test]
fn spells_compares_character_by_character() {
    let exit = chars_of("exit");
    assert!(spells(&exit, "exit"));
    assert!(spells(&chars_of(""), ""));
    assert!(spells(&chars_of("日本"), "日本"));
    assert!(!spells(&exit, "exit "));
    assert!(!spells(&exit, "exiT"));
    assert!(!spells(&exit, ""));
    assert!(!spells(&chars_of("a"), "b"));
}

#[test]
fn reading_what_was_written_gives_the_number_back() {
    for n in [0, 1, -1, 9, 10, 42, -42, 1000, 65535, i32::MAX, i32::MIN, i32::MIN + 1] {
        assert_eq!(parse_i32(&decimal_i32(n)), Some(n));
    }
}
