use coc_attack_bot::text::{
    chars_of, contains_chars, ends_with, eq_ignore_ascii_case, lex_less_eq, push_decimal,
    sort_strings, starts_with, trim,
};

#[test]
fn trim_removes_unicode_white_space() {
    assert_eq!(trim("  \t hello \u{3000}\n"), "hello");
    assert_eq!(trim("\u{85}a b\u{2029}"), "a b");
    assert_eq!(trim(""), "");
    assert_eq!(trim(" \n\t "), "");
    for s in ["  x  ", "\u{a0}y", "z\u{200a}", "no-space"] {
        assert_eq!(trim(s), s.trim());
    }
}

#[test]
fn eq_ignore_ascii_case_matches_std() {
    assert!(eq_ignore_ascii_case("Attack", "ATTACK"));
    assert!(!eq_ignore_ascii_case("Attack ", "ATTACK"));
    assert!(!eq_ignore_ascii_case("Ä", "ä"));
    for (a, b) in [("skip", "SKIP"), ("aTtAcK", "attack"), ("x", "y"), ("", "")] {
        assert_eq!(eq_ignore_ascii_case(a, b), a.eq_ignore_ascii_case(b));
    }
}

#[test]
fn prefixes_suffixes_and_substrings() {
    assert!(starts_with("```json{}", "```json"));
    assert!(!starts_with("``", "```"));
    assert!(ends_with("{}```", "```"));
    assert!(!ends_with("{}``", "```"));
    let hay = chars_of("google play games - clash");
    assert!(contains_chars(&hay, &chars_of("play games")));
    assert!(contains_chars(&hay, &chars_of("")));
    assert!(!contains_chars(&hay, &chars_of("bluestacks")));
}

#[test]
fn decimal_is_display() {
    for n in [0u64, 7, 10, 300_000, u64::MAX] {
        let mut s = String::from("n=");
        push_decimal(&mut s, n);
        assert_eq!(s, format!("n={n}"));
    }
}

#[test]
fn strings_sort_as_std_does() {
    let v: Vec<String> = ["b", "a_2", "a", "B", "é", "a_10"].iter().map(|s| s.to_string()).collect();
    let mut expected = v.clone();
    expected.sort();
    assert_eq!(sort_strings(v), expected);
    assert!(lex_less_eq(&"abc".to_string(), &"abd".to_string()));
    assert!(lex_less_eq(&"ab".to_string(), &"abc".to_string()));
    assert!(!lex_less_eq(&"b".to_string(), &"abc".to_string()));
}
