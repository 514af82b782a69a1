use ge_man_lib::decimal::{parse_u8, u8_text};
use ge_man_lib::text::{chars_of, contains_text, matches_at, str_contains, str_eq, text_precedes};

fn chars(s: &str) -> Vec<char> {
    s.chars().collect()
}

#[test]
fn chars_of_keeps_every_character() {
    assert_eq!(chars_of("6.20-GE"), chars("6.20-GE"));
    assert_eq!(chars_of(""), chars(""));
    assert_eq!(chars_of("a\u{00e9}\u{0663}"), vec!['a', '\u{00e9}', '\u{0663}']);
}

#[test]
fn contains_finds_a_block_anywhere() {
    assert!(str_contains("7.0rc3-GE-1", "rc"));
    assert!(str_contains("7.0rc3-GE-1", "rc3"));
    assert!(str_contains("7.0rc3-GE-1", "7"));
    assert!(str_contains("7.0rc3-GE-1", "-1"));
    assert!(str_contains("7.0rc3-GE-1", "7.0rc3-GE-1"));
    assert!(str_contains("7.0rc3-GE-1", ""));
    assert!(str_contains("", ""));
    assert!(!str_contains("7.0rc3-GE-1", "rc1"));
    assert!(!str_contains("7.0rc3-GE-1", "7.0rc3-GE-11"));
    assert!(!str_contains("", "r"));
    assert!(!str_contains("r-c", "rc"));
    assert!(contains_text(&chars("aab"), &chars("ab")));
}

#[test]
fn matches_at_looks_at_one_place() {
    assert!(matches_at(&chars("7.0rc3"), &chars("rc"), 3));
    assert!(!matches_at(&chars("7.0rc3"), &chars("rc"), 2));
    assert!(matches_at(&chars("7.0rc3"), &chars(""), 6));
}

#[test]
fn str_eq_compares_to_the_letter() {
    assert!(str_eq("WINE", "WINE"));
    assert!(str_eq("", ""));
    assert!(!str_eq("WINE", "WINe"));
    assert!(!str_eq("WINE", "WINE "));
    assert!(!str_eq("WINE", "LOL_WINE"));
}

#[test]
fn text_precedes_is_the_order_of_strings() {
    let texts = ["", "L", "LoL", "MF", "rc1", "rc10", "rc2", "rc\u{00e9}", "\u{0663}"];
    for a in texts {
        for b in texts {
            assert_eq!(text_precedes(&chars(a), &chars(b)), String::from(a) < String::from(b));
        }
    }
}

#[test]
fn parse_u8_reads_decimal_numerals() {
    assert_eq!(parse_u8(&chars("0")), Some(0));
    assert_eq!(parse_u8(&chars("7")), Some(7));
    assert_eq!(parse_u8(&chars("20")), Some(20));
    assert_eq!(parse_u8(&chars("255")), Some(255));
    assert_eq!(parse_u8(&chars("000255")), Some(255));
    assert_eq!(parse_u8(&chars("256")), None);
    assert_eq!(parse_u8(&chars("1000")), None);
    assert_eq!(parse_u8(&chars("99999999999999999999999")), None);
    assert_eq!(parse_u8(&chars("")), None);
    assert_eq!(parse_u8(&chars("1a")), None);
    assert_eq!(parse_u8(&chars("+1")), None);
    assert_eq!(parse_u8(&chars("\u{0663}")), None);
}

#[test]
fn u8_text_writes_every_number_as_std_does() {
    for n in 0..=255u8 {
        assert_eq!(u8_text(n), n.to_string());
        assert_eq!(parse_u8(&chars(u8_text(n).as_str())), Some(n));
    }
}
