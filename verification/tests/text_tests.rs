use kanjidamage::text::{
    chars_of, contains_seq, i32_dec_chars, parse_i32_chars, parse_u32_chars, remove_all,
    split_clean, string_from_chars, trim_chars,
};

fn cs(s: &str) -> Vec<char> {
    chars_of(s)
}

#[test]
fn trim_strips_blanks_on_both_sides() {
    assert_eq!(string_from_chars(&trim_chars(&cs("  water \t\n"))), "water");
    assert_eq!(string_from_chars(&trim_chars(&cs("   "))), "");
    assert_eq!(string_from_chars(&trim_chars(&cs("x"))), "x");
    // the non-breaking space and other Unicode blanks trim too
    assert_eq!(string_from_chars(&trim_chars(&cs("\u{a0}water\u{a0}"))), "water");
    assert_eq!(string_from_chars(&trim_chars(&cs("\u{3000}金\u{2009}"))), "金");
}

#[test]
fn decimal_rendering_matches_standard_formatting() {
    assert_eq!(string_from_chars(&i32_dec_chars(0)), "0");
    assert_eq!(string_from_chars(&i32_dec_chars(9)), "9");
    assert_eq!(string_from_chars(&i32_dec_chars(130)), "130");
    assert_eq!(string_from_chars(&i32_dec_chars(-42)), "-42");
    assert_eq!(string_from_chars(&i32_dec_chars(i32::MIN)), "-2147483648");
    assert_eq!(string_from_chars(&i32_dec_chars(i32::MAX)), "2147483647");
}

#[test]
fn split_clean_trims_and_drops_empty_pieces() {
    let parts = split_clean(&cs(" gold / money //  "), '/');
    let parts: Vec<String> = parts.iter().map(string_from_chars).collect();
    assert_eq!(parts, vec!["gold".to_string(), "money".to_string()]);
}

#[test]
fn integer_parsing_mirrors_the_standard_rules() {
    assert_eq!(parse_i32_chars(&cs("42")), Some(42));
    assert_eq!(parse_i32_chars(&cs("+42")), Some(42));
    assert_eq!(parse_i32_chars(&cs("-42")), Some(-42));
    assert_eq!(parse_i32_chars(&cs("-2147483648")), Some(i32::MIN));
    assert_eq!(parse_i32_chars(&cs("2147483648")), None);
    assert_eq!(parse_i32_chars(&cs("")), None);
    assert_eq!(parse_i32_chars(&cs("+")), None);
    assert_eq!(parse_i32_chars(&cs("4x2")), None);
    assert_eq!(parse_u32_chars(&cs("4294967295")), Some(u32::MAX));
    assert_eq!(parse_u32_chars(&cs("4294967296")), None);
    assert_eq!(parse_u32_chars(&cs("-1")), None);
    assert_eq!(parse_u32_chars(&cs("0007")), Some(7));
    assert_eq!(parse_u32_chars(&cs("99999999999999999999")), None);
}

#[test]
fn substring_search_finds_runs() {
    assert!(contains_seq(&cs("water"), &cs("ate")));
    assert!(contains_seq(&cs("water"), &cs("")));
    assert!(!contains_seq(&cs("water"), &cs("metal")));
    assert!(!contains_seq(&cs("wa"), &cs("water")));
}

#[test]
fn remove_all_deletes_every_occurrence() {
    let out = remove_all(&cs("Number 12 Number"), &cs("Number"));
    assert_eq!(string_from_chars(&out), " 12 ");
    let stars = remove_all(&cs("か*ね*"), &cs("*"));
    assert_eq!(string_from_chars(&stars), "かね");
    let untouched = remove_all(&cs("abc"), &cs("xyz"));
    assert_eq!(string_from_chars(&untouched), "abc");
}
