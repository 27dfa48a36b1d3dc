use udrome::text::{
    chars, contains_ignore_case, i32_to_string, parse_i32, rank, same, split, strip_prefix,
    strip_quotes, u64_to_string, words, Rank,
};

#[test]
fn words_are_split_on_white_space() {
    assert_eq!(words("  red \t shoes\n"), vec!["red".to_string(), "shoes".to_string()]);
    assert_eq!(words("red\u{a0}shoes\u{3000}x"), vec!["red", "shoes", "x"]);
    assert!(words("   ").is_empty());
    assert!(words("").is_empty());
    assert_eq!(words("one"), vec!["one"]);
}

#[test]
fn quotes_are_stripped() {
    assert_eq!(strip_quotes("\"red\" shoes\""), "red shoes".to_string());
    assert_eq!(strip_quotes("\"\""), "");
    assert_eq!(strip_quotes("plain"), "plain");
}

#[test]
fn substring_search_ignores_ascii_case() {
    assert!(contains_ignore_case("Red Balloon", "BALL"));
    assert!(contains_ignore_case("Red Balloon", "red balloon"));
    assert!(!contains_ignore_case("Red Balloon", "shoe"));
    assert!(!contains_ignore_case("Red", "Redder"));
    assert!(contains_ignore_case("abc", ""));
    assert!(contains_ignore_case("", ""));
    assert!(!contains_ignore_case("", "a"));
}

#[test]
fn substring_search_does_not_fold_beyond_ascii() {
    assert!(contains_ignore_case("Ärger", "Ärg"));
    assert!(!contains_ignore_case("Ärger", "ärg"));
}

#[test]
fn chars_keeps_every_character() {
    assert_eq!(chars("aé\u{1f3b5}"), vec!['a', 'é', '\u{1f3b5}']);
    assert!(chars("").is_empty());
}

#[test]
fn strings_are_ranked_by_code_point() {
    assert_eq!(rank("a", "b"), Rank::Below);
    assert_eq!(rank("b", "a"), Rank::Above);
    assert_eq!(rank("ab", "ab"), Rank::Same);
    assert_eq!(rank("ab", "abc"), Rank::Below);
    assert_eq!(rank("abc", "ab"), Rank::Above);
    assert_eq!(rank("", ""), Rank::Same);
    assert_eq!(rank("Z", "a"), Rank::Below);
    assert_eq!(rank("z", "é"), Rank::Below);
    assert!(same("x", "x"));
    assert!(!same("x", "X"));
}

#[test]
fn numbers_are_written_in_decimal() {
    assert_eq!(u64_to_string(0), "0");
    assert_eq!(u64_to_string(7), "7");
    assert_eq!(u64_to_string(1203), "1203");
    assert_eq!(u64_to_string(u64::MAX), "18446744073709551615");
    assert_eq!(i32_to_string(0), "0");
    assert_eq!(i32_to_string(511), "511");
    assert_eq!(i32_to_string(-42), "-42");
    assert_eq!(i32_to_string(i32::MAX), "2147483647");
    assert_eq!(i32_to_string(i32::MIN), "-2147483648");
}

#[test]
fn numbers_are_read_as_std_reads_them() {
    let cases = [
        "0", "7", "42", "+42", "-42", "-0", "007", "2147483647", "2147483648", "-2147483648",
        "-2147483649", "99999999999999999999999", "", "-", "+", "4 2", " 42", "42 ", "4x", "x",
        "--1", "+-1", "１",
    ];
    for case in cases {
        assert_eq!(parse_i32(case), case.parse::<i32>().ok(), "{:?}", case);
    }
}

#[test]
fn prefix_is_stripped() {
    assert_eq!(strip_prefix("/udrome/index.html", "/udrome"), Some("/index.html".to_string()));
    assert_eq!(strip_prefix("/index.html", ""), Some("/index.html".to_string()));
    assert_eq!(strip_prefix("/udrome", "/udrome"), Some(String::new()));
    assert_eq!(strip_prefix("/other/x", "/udrome"), None);
    assert_eq!(strip_prefix("/ud", "/udrome"), None);
}

#[test]
fn split_keeps_empty_pieces() {
    assert_eq!(split("/a/b", '/'), vec!["", "a", "b"]);
    assert_eq!(split("", '/'), vec![""]);
    assert_eq!(split("a//b/", '/'), vec!["a", "", "b", ""]);
    assert_eq!(split("abc", '/'), vec!["abc"]);
}

#[test]
fn optional_strings_go_both_ways() {
    let owned = Some("a".to_string());
    assert_eq!(udrome::util::unpwn(&owned), Some("a"));
    assert_eq!(udrome::util::unpwn(&None), None);
    assert_eq!(udrome::util::to_pwned(Some("a")), owned);
    assert_eq!(udrome::util::to_pwned(None), None);
    assert_eq!(udrome::text::clone_opt(&owned), owned);
}
