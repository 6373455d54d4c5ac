use camera_controls::text::{c_label, i64_text, join_texts, parse_u32, u64_text};

#[test]
fn decimal_rendering_of_unsigned_numbers() {
    assert_eq!(u64_text(0), "0");
    assert_eq!(u64_text(7), "7");
    assert_eq!(u64_text(10), "10");
    assert_eq!(u64_text(1234567890), "1234567890");
    assert_eq!(u64_text(u64::MAX), u64::MAX.to_string());
}

#[test]
fn decimal_rendering_of_signed_numbers() {
    assert_eq!(i64_text(0), "0");
    assert_eq!(i64_text(-42), "-42");
    assert_eq!(i64_text(255), "255");
    assert_eq!(i64_text(i64::MIN), i64::MIN.to_string());
    assert_eq!(i64_text(i64::MAX), i64::MAX.to_string());
}

#[test]
fn parse_u32_accepts_what_std_accepts() {
    for s in ["0", "42", "+7", "007", "4294967295", "4294967296", "-1", "", "+", "12a", " 1", "99999999999", "+-1"] {
        assert_eq!(parse_u32(s), s.parse::<u32>().ok(), "input {:?}", s);
    }
}

#[test]
fn parse_u32_reads_back_decimal_rendering() {
    for n in [0u32, 1, 9, 10, 980000, 9963776, u32::MAX] {
        assert_eq!(parse_u32(&u64_text(n as u64)), Some(n));
    }
}

#[test]
fn c_label_stops_at_the_first_nul() {
    let mut name = [0u8; 32];
    name[..10].copy_from_slice(b"Brightness");
    name[11] = b'X';
    assert_eq!(c_label(&name), "Brightness");
}

#[test]
fn c_label_without_nul_is_unknown() {
    let name = [b'a'; 32];
    assert_eq!(c_label(&name), "Unknown");
}

#[test]
fn c_label_replaces_invalid_utf8() {
    let mut name = [0u8; 32];
    name[0] = b'A';
    name[1] = 0xFF;
    name[2] = b'B';
    assert_eq!(c_label(&name), "A\u{FFFD}B");
}

#[test]
fn join_texts_separates_items() {
    let items = vec!["a".to_string(), "bc".to_string(), "d".to_string()];
    assert_eq!(join_texts(&items, "; "), "a; bc; d");
    assert_eq!(join_texts(&Vec::new(), "; "), "");
    assert_eq!(join_texts(&vec!["only".to_string()], "; "), "only");
}
