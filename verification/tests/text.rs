//! Text: trimming, replacing, numbers.
use incline_design::text::{
    decimal_text, hex_text, joined, number_with_commas, replace_all, same_ignoring_ascii_case,
    same_text, starts_with, trim,
};

#[test]
fn trim_takes_unicode_space_off_both_ends() {
    assert_eq!(trim("  a b\t\n"), "a b");
    assert_eq!(trim("\u{2003}x\u{a0}"), "x");
    assert_eq!(trim(" \t "), "");
    assert_eq!(trim(""), "");
    assert_eq!(trim("\u{200b}x"), "\u{200b}x");
}

#[test]
fn replace_all_takes_matches_from_the_left() {
    assert_eq!(replace_all("aaa", "aa", "b"), "ba");
    assert_eq!(replace_all("%n% and %n%", "%n%", "x"), "x and x");
    assert_eq!(replace_all("nothing here", "%n%", "x"), "nothing here");
    assert_eq!(replace_all("short", "a longer pattern", "x"), "short");
}

#[test]
fn text_comparisons_go_by_character() {
    assert!(same_text("größe", "größe"));
    assert!(!same_text("a", "ab"));
    assert!(!same_text("ab", "ac"));
    assert!(starts_with("No localization for id: \"x\"", "No localization for id:"));
    assert!(!starts_with("No", "No localization"));
    assert!(same_ignoring_ascii_case("PoSiX", "posix"));
    assert!(!same_ignoring_ascii_case("É", "é"));
}

#[test]
fn numbers_are_written_out() {
    assert_eq!(decimal_text(0), "0");
    assert_eq!(decimal_text(u64::MAX), "18446744073709551615");
    assert_eq!(hex_text(0xab, 16), "00000000000000ab");
    assert_eq!(hex_text(u64::MAX, 16), "ffffffffffffffff");
    assert_eq!(joined("a", "b"), "ab");
}

#[test]
fn numbers_are_grouped_by_three() {
    assert_eq!(number_with_commas(0), "0");
    assert_eq!(number_with_commas(999), "999");
    assert_eq!(number_with_commas(1000), "1,000");
    assert_eq!(number_with_commas(123456), "123,456");
    assert_eq!(number_with_commas(1234567), "1,234,567");
    assert_eq!(number_with_commas(u64::MAX), "18,446,744,073,709,551,615");
}
