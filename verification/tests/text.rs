use buzzer::text::{parse_u32, same_text, write_decimal};

#[test]
fn texts_are_compared_character_by_character() {
    assert!(same_text("", ""));
    assert!(same_text("new", "new"));
    assert!(same_text("größe", "größe"));
    assert!(!same_text("new", "New"));
    assert!(!same_text("new", "newer"));
    assert!(!same_text("newer", "new"));
    assert!(!same_text("", "x"));
}

#[test]
fn numbers_are_read_as_the_standard_library_reads_them() {
    let texts = [
        "", "0", "7", "42", "1000", "9998", "0007", "+5", "+", "++5", "+0", "-0", "-1", "-", " 5",
        "5 ", "1_000", "0x10", "1e3", "four", "new", "none", "12a", "a12", "4294967295",
        "4294967296", "+4294967295", "+4294967296", "42949672950", "00004294967295",
        "99999999999999999999999999", "4294967296x", "٣", "5\n", "5.0",
    ];
    for text in texts {
        assert_eq!(parse_u32(text), text.parse::<u32>().ok(), "{:?}", text);
    }
}

#[test]
fn numbers_are_read_exactly() {
    assert_eq!(parse_u32("1234"), Some(1234));
    assert_eq!(parse_u32("+1234"), Some(1234));
    assert_eq!(parse_u32("4294967295"), Some(u32::MAX));
    assert_eq!(parse_u32("4294967296"), None);
    assert_eq!(parse_u32("12 34"), None);
}

#[test]
fn numbers_are_written_in_decimal() {
    assert_eq!(write_decimal(0), "0");
    assert_eq!(write_decimal(9), "9");
    assert_eq!(write_decimal(10), "10");
    assert_eq!(write_decimal(1000), "1000");
    assert_eq!(write_decimal(u32::MAX), "4294967295");
}

#[test]
fn written_numbers_are_read_back() {
    let mut n: u32 = 1;
    for _ in 0..200 {
        assert_eq!(parse_u32(&write_decimal(n)), Some(n));
        assert_eq!(write_decimal(n), n.to_string());
        n = n.wrapping_mul(1_664_525).wrapping_add(1_013_904_223);
    }
}
