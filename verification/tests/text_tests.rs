use ohpdf::text::{is_blank, parse_u32, push_decimal, same_text};

#[test]
fn parse_u32_like_std() {
    for s in ["42", "+7", "-1", "", "+", "4294967295", "4294967296", "12a", "007", " 1", "++1"] {
        assert_eq!(parse_u32(s), s.parse::<u32>().ok(), "input {:?}", s);
    }
    assert_eq!(parse_u32("+7"), Some(7));
    assert_eq!(parse_u32("4294967295"), Some(u32::MAX));
    assert_eq!(parse_u32("4294967296"), None);
}

#[test]
fn decimal_numerals() {
    for n in [0u64, 7, 10, 1234, u64::MAX] {
        let mut s = String::from("n=");
        push_decimal(&mut s, n);
        assert_eq!(s, format!("n={}", n));
    }
}

#[test]
fn printed_numbers_read_back() {
    for n in [0u32, 9, 10, 65535, u32::MAX] {
        let mut s = String::new();
        push_decimal(&mut s, n as u64);
        assert_eq!(parse_u32(&s), Some(n));
    }
}

#[test]
fn blank_text() {
    assert!(is_blank(""));
    assert!(is_blank("  \n\t\r"));
    assert!(is_blank("\u{3000}\u{00A0}"));
    assert!(!is_blank(" a "));
    for s in ["", " x", "\u{2028}", "\u{200B}", "\u{FEFF}"] {
        assert_eq!(is_blank(s), s.trim().is_empty(), "input {:?}", s);
    }
}

#[test]
fn text_equality() {
    assert!(same_text("abc", "abc"));
    assert!(!same_text("abc", "abd"));
}
