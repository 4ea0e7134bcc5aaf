use dl_nzb::text::{
    decimal, find_text, join2, join3, join4, join_path, matches_at, parse_u64, prefix_of,
    rfind_text, same_text, str_contains, str_ends_with, str_starts_with, to_chars,
};

fn chars(s: &str) -> Vec<char> {
    s.chars().collect()
}

#[test]
fn decimal_numbers() {
    assert_eq!(decimal(0), "0");
    assert_eq!(decimal(7), "7");
    assert_eq!(decimal(10), "10");
    assert_eq!(decimal(1706440708), "1706440708");
    assert_eq!(decimal(u64::MAX), "18446744073709551615");
}

#[test]
fn joining_texts() {
    assert_eq!(join2("a", "b"), "ab");
    assert_eq!(join3("a", "", "c"), "ac");
    assert_eq!(join4("1", "2", "3", "4"), "1234");
}

#[test]
fn characters_of_a_text() {
    assert_eq!(to_chars("añ→z"), vec!['a', 'ñ', '→', 'z']);
    assert_eq!(to_chars(""), Vec::<char>::new());
}

#[test]
fn finding_texts() {
    let text = chars("movie.part01.rar.part02");
    assert_eq!(find_text(&text, &chars(".part")), Some(5));
    assert_eq!(rfind_text(&text, &chars(".part")), Some(16));
    assert_eq!(find_text(&text, &chars(".zip")), None);
    assert_eq!(rfind_text(&text, &chars(".zip")), None);
    assert_eq!(find_text(&text, &chars("")), Some(0));
    assert_eq!(rfind_text(&text, &chars("")), Some(text.len()));
    assert_eq!(find_text(&chars("ab"), &chars("abc")), None);
    assert!(matches_at(&text, &chars("rar"), 13));
    assert!(!matches_at(&text, &chars("rar"), 12));
    assert!(!matches_at(&text, &chars("rar"), 22));
}

#[test]
fn containing_and_ending() {
    assert!(str_contains("archive.part001.rar", ".part001."));
    assert!(!str_contains("archive.rar", ".part"));
    assert!(str_contains("anything", ""));
    assert!(str_ends_with("archive.part01.rar", ".part01.rar"));
    assert!(!str_ends_with("archive.part01.rar.bak", ".rar"));
    assert!(!str_ends_with("ar", ".rar"));
    assert!(str_starts_with("archive.rar", "archive"));
    assert!(!str_starts_with("archive.rar", "rchive"));
    assert!(same_text("rar", "rar"));
    assert!(!same_text("rar", "RAR"));
}

#[test]
fn prefixes() {
    assert_eq!(prefix_of("münchen.rar", 7), "münchen");
    assert_eq!(prefix_of("abc", 0), "");
    assert_eq!(prefix_of("abc", 3), "abc");
}

#[test]
fn paths_are_joined_as_by_the_platform() {
    for (base, rest) in [
        ("/downloads", "file.bin"),
        ("/downloads/", "file.bin"),
        ("downloads", "sub/file.bin"),
        ("", "file.bin"),
        ("/downloads", "/etc/passwd"),
        ("/downloads", ""),
        ("", ""),
        ("/", "x"),
    ] {
        let expected = std::path::Path::new(base).join(rest);
        assert_eq!(join_path(base, rest), expected.to_str().unwrap());
    }
    assert_eq!(join_path("/downloads", "file.bin"), "/downloads/file.bin");
    assert_eq!(join_path("/downloads", "/abs"), "/abs");
}

#[test]
fn numbers_are_parsed_as_by_the_platform() {
    for text in [
        "0", "15", "+15", "007", "18446744073709551615", "18446744073709551616",
        "99999999999999999999999", "", "+", "-1", "1 ", " 1", "1a", "a1", "++1", "1_000", "٣",
        "+0",
    ] {
        assert_eq!(parse_u64(text), text.parse::<u64>().ok());
    }
    assert_eq!(parse_u64("15"), Some(15));
    assert_eq!(parse_u64("18446744073709551615"), Some(u64::MAX));
    assert_eq!(parse_u64("18446744073709551616"), None);
}
