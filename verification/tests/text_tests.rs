use cakeman::text::{
    chars_of, decimal_string, split_lines, join, join_decorated, push_char, signed_decimal_string, starts_with_char, str_eq,
    to_ascii_lower, trimmed,
};

#[test]
fn trimming_matches_std() {
    for s in ["", "  a b  ", "\t\n x\r\n", "\u{a0}y\u{2003}", "none", "   ", "\u{85}z\u{3000}"] {
        assert_eq!(trimmed(s), s.trim());
    }
}

#[test]
fn string_equality() {
    assert!(str_eq("abc", "abc"));
    assert!(!str_eq("abc", "abd"));
    assert!(!str_eq("ab", "abc"));
    assert!(str_eq("", ""));
    assert!(str_eq("é", "é"));
}

#[test]
fn first_character() {
    assert!(starts_with_char("#x", '#'));
    assert!(!starts_with_char("", '#'));
    assert!(!starts_with_char(" #", '#'));
}

#[test]
fn ascii_lower_case() {
    assert_eq!(to_ascii_lower('A'), 'a');
    assert_eq!(to_ascii_lower('Z'), 'z');
    assert_eq!(to_ascii_lower('a'), 'a');
    assert_eq!(to_ascii_lower('['), '[');
    assert_eq!(to_ascii_lower('É'), 'É');
}

#[test]
fn joining() {
    let v: Vec<String> = vec!["a".into(), "b".into(), "c".into()];
    assert_eq!(join(&v, ", "), "a, b, c");
    assert_eq!(join(&v[..1], ", "), "a");
    assert_eq!(join(&[], ", "), "");
    assert_eq!(join_decorated(&v, "<", ">", "|"), "<a>|<b>|<c>");
}

#[test]
fn decimals() {
    assert_eq!(decimal_string(0), "0");
    assert_eq!(decimal_string(7), "7");
    assert_eq!(decimal_string(1234567890), "1234567890");
    assert_eq!(decimal_string(u128::MAX), u128::MAX.to_string());
    assert_eq!(signed_decimal_string(-42), "-42");
    assert_eq!(signed_decimal_string(i64::MIN), i64::MIN.to_string());
    assert_eq!(signed_decimal_string(1725029869), "1725029869");
}

#[test]
fn pushing_a_character() {
    let mut s = String::from("ab");
    push_char(&mut s, 'ü');
    assert_eq!(s, "abü");
}

#[test]
fn lines_match_std() {
    for s in ["", "a", "a\n", "a\nb", "a\r\nb\r\n", "\n\n", "x\r", "x\ry\n", "\r\n", "one\n\ntwo\n"] {
        let expected: Vec<String> = s.lines().map(|l| l.to_string()).collect();
        assert_eq!(split_lines(s), expected, "input {:?}", s);
    }
}

#[test]
fn characters_of_a_string() {
    assert_eq!(chars_of("añb"), vec!['a', 'ñ', 'b']);
    assert!(chars_of("").is_empty());
}
