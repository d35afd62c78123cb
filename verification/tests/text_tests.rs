use hachimi::text::{parse_i32, parse_u64, replace_str, str_contains, str_ends_with, str_starts_with};

#[test]
fn replace_str_replaces_left_to_right_without_overlap() {
    assert_eq!(replace_str("aaa", "aa", "b"), "ba");
    assert_eq!(replace_str("a\n\nb", "\n\n", " "), "a b");
    assert_eq!(replace_str("abc", "x", "y"), "abc");
    assert_eq!(replace_str("", "x", "y"), "");
}

#[test]
fn parse_i32_follows_std() {
    assert_eq!(parse_i32("42"), Some(42));
    assert_eq!(parse_i32("+7"), Some(7));
    assert_eq!(parse_i32("-2147483648"), Some(i32::MIN));
    assert_eq!(parse_i32("2147483647"), Some(i32::MAX));
    assert_eq!(parse_i32("2147483648"), None);
    assert_eq!(parse_i32(""), None);
    assert_eq!(parse_i32("-"), None);
    assert_eq!(parse_i32("1a"), None);
    assert_eq!(parse_i32("0001"), Some(1));
    for s in ["12", "-5", "+0", "99999999999", "x", " 1"] {
        assert_eq!(parse_i32(s), s.parse::<i32>().ok());
    }
}

#[test]
fn parse_u64_follows_std() {
    assert_eq!(parse_u64("18446744073709551615"), Some(u64::MAX));
    assert_eq!(parse_u64("18446744073709551616"), None);
    assert_eq!(parse_u64("-1"), None);
    assert_eq!(parse_u64("+12"), Some(12));
    for s in ["0", "123456", "", "+", "-0", "12 "] {
        assert_eq!(parse_u64(s), s.parse::<u64>().ok());
    }
}

#[test]
fn affix_checks() {
    assert!(str_ends_with("lib/libil2cpp.so", "libil2cpp.so"));
    assert!(!str_ends_with("so", "libil2cpp.so"));
    assert!(str_starts_with("Jobs_3", "Jobs_"));
    assert!(str_contains("snd_voi_training_1001", "_training_"));
    assert!(str_contains("abc", ""));
    assert!(!str_contains("abc", "abcd"));
}
