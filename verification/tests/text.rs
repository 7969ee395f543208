use coordin8::text::{contains, eq_ignore_ascii_case, parse_u16, parse_u64, split_once_char, strip_prefix, trim_start_char};

#[test]
fn prefixes_are_stripped() {
    assert_eq!(strip_prefix("Bearer abc", "Bearer "), Some("abc"));
    assert_eq!(strip_prefix("Bearer", "Bearer "), None);
    assert_eq!(strip_prefix("Basic abc", "Bearer "), None);
    assert_eq!(strip_prefix("über", ""), Some("über"));
    assert_eq!(strip_prefix("ünïcode", "ün"), Some("ïcode"));
}

#[test]
fn substrings_are_found() {
    assert!(contains("coordin8.RegistryService", "Registry"));
    assert!(contains("abc", ""));
    assert!(contains("abc", "abc"));
    assert!(!contains("abc", "abcd"));
    assert!(!contains("abc", "cb"));
    assert!(contains("naïve", "ïv"));
}

#[test]
fn ascii_case_is_ignored() {
    assert!(eq_ignore_ascii_case("JSON", "json"));
    assert!(eq_ignore_ascii_case("Pretty", "pReTtY"));
    assert!(!eq_ignore_ascii_case("json", "jsonl"));
    assert!(!eq_ignore_ascii_case("Ä", "ä"));
    assert!(eq_ignore_ascii_case("", ""));
}

#[test]
fn leading_characters_are_trimmed() {
    assert_eq!(trim_start_char("///a/b", '/'), "a/b");
    assert_eq!(trim_start_char("////", '/'), "");
    assert_eq!(trim_start_char("a//", '/'), "a//");
}

#[test]
fn split_at_first_delimiter() {
    assert_eq!(split_once_char("host:port:extra", ':'), Some(("host", "port:extra")));
    assert_eq!(split_once_char(":x", ':'), Some(("", "x")));
    assert_eq!(split_once_char("nodelim", ':'), None);
}

#[test]
fn unsigned_numbers_parse_as_std_does() {
    for s in ["0", "7", "+7", "0012", "18446744073709551615", "18446744073709551616", "", "+", "-1", "1_000", " 1", "12a"] {
        assert_eq!(parse_u64(s), s.parse::<u64>().ok(), "{s}");
    }
    for s in ["65535", "65536", "+65535", "0", "", "99999999999999999999999"] {
        assert_eq!(parse_u16(s), s.parse::<u16>().ok(), "{s}");
    }
}
