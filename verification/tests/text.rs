use recsys::arxiv::parse_stamp;
use recsys::text::{
    after_last_slash_of, concat_str, decimal_string, join_strings, parse_u64, str_contains,
    string_from_chars, trim_str,
};

#[test]
fn after_last_slash_takes_the_tail() {
    assert_eq!(after_last_slash_of("http://arxiv.org/abs/2101.00001v1"), "2101.00001v1");
    assert_eq!(after_last_slash_of("noslash"), "noslash");
    assert_eq!(after_last_slash_of("ends/"), "");
    assert_eq!(after_last_slash_of(""), "");
}

#[test]
fn contains_finds_substrings() {
    assert!(str_contains("http://arxiv.org/api/errors#x", "/api/errors"));
    assert!(!str_contains("http://arxiv.org/abs/1", "/api/errors"));
    assert!(str_contains("abc", ""));
    assert!(!str_contains("ab", "abc"));
    assert!(str_contains("abc", "abc"));
}

#[test]
fn join_matches_std_join() {
    let parts = vec!["a".to_string(), "b".to_string(), "c".to_string()];
    assert_eq!(join_strings(&parts, " OR "), parts.join(" OR "));
    assert_eq!(join_strings(&vec![], ","), "");
    assert_eq!(join_strings(&vec!["x".to_string()], ","), "x");
}

#[test]
fn decimal_matches_to_string() {
    for n in [0u64, 7, 10, 2000, 1700000000, u64::MAX] {
        assert_eq!(decimal_string(n), n.to_string());
    }
}

#[test]
fn parse_u64_follows_std_parse() {
    for s in ["0", "42", "+42", "-1", "", "+", "12a", "18446744073709551615", "18446744073709551616", "007"] {
        assert_eq!(parse_u64(s), s.parse::<u64>().ok(), "input {:?}", s);
    }
}

#[test]
fn decimal_reads_back() {
    for n in [0u64, 3, 99, 1234567890123, u64::MAX] {
        assert_eq!(parse_u64(&decimal_string(n)), Some(n));
        assert_eq!(parse_stamp(&decimal_string(n)), Some(n));
    }
}

#[test]
fn stamp_allows_surrounding_whitespace() {
    assert_eq!(parse_stamp("  1700000000\n"), Some(1700000000));
    assert_eq!(parse_stamp("\t\n"), None);
    assert_eq!(parse_stamp("17 00"), None);
}

#[test]
fn trim_drops_whitespace() {
    assert_eq!(trim_str("  a b \n"), "a b");
    assert_eq!(trim_str("xyz"), "xyz");
    let odd = "\u{3000}\u{a0} mid \u{2029}\u{85}";
    assert_eq!(trim_str(odd), odd.trim());
    assert_eq!(trim_str(odd), "mid");
}

#[test]
fn chars_round_trip() {
    let v: Vec<char> = "héllo".chars().collect();
    assert_eq!(string_from_chars(&v), "héllo");
    assert_eq!(concat_str("ab", "cd"), "abcd");
}
