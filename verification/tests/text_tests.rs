use jinja_rs::text::{ascii_lower, contains_str, ends_with_str, is_blank, join_with, str_eq, trim_str, u64_dec};

#[test]
fn trim_removes_margins_only() {
    assert_eq!(trim_str("  spaces  \n"), "spaces");
    assert_eq!(trim_str("\t a b \r\n"), "a b");
    assert_eq!(trim_str("plain"), "plain");
    assert_eq!(trim_str(" \t\r\n"), "");
    assert_eq!(trim_str(""), "");
}

#[test]
fn blankness_means_whitespace_only() {
    assert!(is_blank(""));
    assert!(is_blank("   \t\n"));
    assert!(is_blank("\u{000B}\u{000C}\u{00A0}\u{3000}"));
    assert!(!is_blank("  x  "));
}

#[test]
fn trim_follows_the_unicode_whitespace_set() {
    assert_eq!(trim_str("\u{000B}x\u{00A0}"), "x");
    assert_eq!(trim_str("\u{2028}\u{2000}word\u{200A}\u{0085}"), "word");
    assert_eq!("\u{000B}x\u{00A0}".trim(), trim_str("\u{000B}x\u{00A0}").as_str());
}

#[test]
fn join_places_separator_between_values() {
    let vals = vec!["a".to_string(), "b".to_string(), "c".to_string()];
    assert_eq!(join_with(&vals, ", "), "a, b, c");
    assert_eq!(join_with(&vals, "\n"), "a\nb\nc");
    let one = vec!["solo".to_string()];
    assert_eq!(join_with(&one, "\n"), "solo");
    let none: Vec<String> = Vec::new();
    assert_eq!(join_with(&none, "\n"), "");
}

#[test]
fn containment_and_suffix_checks() {
    assert!(contains_str("fish-linux-x86_64.tar.xz", "linux"));
    assert!(!contains_str("fish-macos.tar.xz", "linux"));
    assert!(contains_str("abc", ""));
    assert!(ends_with_str("archive.tar.xz", ".tar.xz"));
    assert!(!ends_with_str("archive.zip", ".tar.xz"));
}

#[test]
fn lowering_touches_only_capitals() {
    assert_eq!(ascii_lower("Fish-4.0.0-LINUX.TAR.XZ"), "fish-4.0.0-linux.tar.xz");
    assert_eq!(ascii_lower("already lower 123"), "already lower 123");
}

#[test]
fn string_equality_goes_by_characters() {
    assert!(str_eq("same", "same"));
    assert!(!str_eq("same", "Same"));
    assert!(!str_eq("same", "sam"));
}

#[test]
fn decimal_rendering_is_exact() {
    assert_eq!(u64_dec(0), "0");
    assert_eq!(u64_dec(7), "7");
    assert_eq!(u64_dec(10), "10");
    assert_eq!(u64_dec(1048576), "1048576");
    assert_eq!(u64_dec(u64::MAX), "18446744073709551615");
}
