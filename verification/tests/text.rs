use brawler_core::table::{find_text, find_text_or_key, TextEntry};
use brawler_core::text::{
    chars_of, contains_str, decimal, find_chars, has_non_whitespace, prefix_before, signed_decimal, strip_query, trim,
};

#[test]
fn numbers_render_in_decimal() {
    assert_eq!(decimal(0), "0");
    assert_eq!(decimal(1_373_000), "1373000");
    assert_eq!(decimal(u128::MAX), "340282366920938463463374607431768211455");
    assert_eq!(signed_decimal(-42), "-42");
    assert_eq!(signed_decimal(i64::MIN), "-9223372036854775808");
    assert_eq!(signed_decimal(7), "7");
}

#[test]
fn text_is_cut_at_a_marker() {
    assert_eq!(prefix_before("http_error: timeout", ':'), "http_error");
    assert_eq!(prefix_before("no marker", ':'), "no marker");
    assert_eq!(strip_query("https://x/a.pdf?v=1#p"), "https://x/a.pdf");
    assert_eq!(strip_query("https://x/a.pdf#p?v"), "https://x/a.pdf");
    assert_eq!(trim("  raport \n"), "raport");
    assert!(has_non_whitespace(" a "));
    assert!(!has_non_whitespace(" \t\n"));
}

#[test]
fn substrings_are_found_by_characters() {
    assert!(contains_str("zarząd rekomenduje dywidendę", "dywidend"));
    assert!(!contains_str("raport", "raporty"));
    assert!(contains_str("anything", ""));
    assert_eq!(find_chars(&chars_of("aab"), &chars_of("ab")), Some(1));
    assert_eq!(find_chars(&chars_of("aab"), &chars_of("ba")), None);
}

#[test]
fn lookups_fall_back_to_the_key() {
    let entries = vec![
        TextEntry { key: "company_gpw_cdr".to_owned(), value: "CDR".to_owned() },
        TextEntry { key: "company_gpw_cdr".to_owned(), value: "later".to_owned() },
    ];
    assert_eq!(find_text(&entries, "company_gpw_cdr"), Some("CDR".to_owned()), "the first row wins");
    assert_eq!(find_text(&entries, "company_gone"), None);
    assert_eq!(find_text_or_key(&entries, "company_gone"), "company_gone");
}

#[test]
fn whitespace_is_exactly_what_std_calls_whitespace() {
    for code in 0u32..=0x10FFFF {
        if let Some(c) = char::from_u32(code) {
            let text = c.to_string();
            assert_eq!(has_non_whitespace(&text), !c.is_whitespace(), "U+{code:04X}");
        }
    }
}
