use motorctl::decimal::Decimal;
use motorctl::text;

#[test]
fn trim_removes_surrounding_whitespace() {
    assert_eq!(text::trim("  speed: 1.5\r\n"), "speed: 1.5");
    assert_eq!(text::trim("\t x \t"), "x");
    assert_eq!(text::trim(""), "");
    assert_eq!(text::trim("   "), "");
    assert_eq!(text::trim("a b"), "a b");
}

#[test]
fn str_eq_compares_characters() {
    assert!(text::str_eq("abc", "abc"));
    assert!(!text::str_eq("abc", "abd"));
    assert!(!text::str_eq("abc", "ab"));
    assert!(text::str_eq("", ""));
}

#[test]
fn strip_prefix_splits_the_key() {
    assert_eq!(text::strip_prefix("Kp: 1.5", "Kp:"), Some(" 1.5"));
    assert_eq!(text::strip_prefix("Kp: 1.5", "Ki:"), None);
    assert_eq!(text::strip_prefix("K", "Kp:"), None);
}

#[test]
fn parse_u32_exact_values() {
    assert_eq!(text::parse_u32("0"), Some(0));
    assert_eq!(text::parse_u32("4294967295"), Some(u32::MAX));
    assert_eq!(text::parse_u32("4294967296"), None);
    assert_eq!(text::parse_u32(""), None);
    assert_eq!(text::parse_u32("12a"), None);
    assert_eq!(text::parse_u32("007"), Some(7));
}

#[test]
fn parse_u8_exact_values() {
    assert_eq!(text::parse_u8("255"), Some(255));
    assert_eq!(text::parse_u8("256"), None);
    assert_eq!(text::parse_u8("3"), Some(3));
}

#[test]
fn parse_i32_exact_values() {
    assert_eq!(text::parse_i32("1"), Some(1));
    assert_eq!(text::parse_i32("-1"), Some(-1));
    assert_eq!(text::parse_i32("2147483647"), Some(i32::MAX));
    assert_eq!(text::parse_i32("-2147483648"), Some(i32::MIN));
    assert_eq!(text::parse_i32("2147483648"), None);
    assert_eq!(text::parse_i32("-2147483649"), None);
    assert_eq!(text::parse_i32("-"), None);
    assert_eq!(text::parse_i32("1.5"), None);
}

#[test]
fn integer_rendering() {
    assert_eq!(text::u32_to_string(0), "0");
    assert_eq!(text::u32_to_string(7), "7");
    assert_eq!(text::u32_to_string(1200), "1200");
    assert_eq!(text::u32_to_string(u32::MAX), "4294967295");
    assert_eq!(text::i32_to_string(-1), "-1");
    assert_eq!(text::i32_to_string(1), "1");
    assert_eq!(text::i32_to_string(i32::MIN), "-2147483648");
}

#[test]
fn decimal_accepts_wire_shapes() {
    for good in ["0", "1200", "1.5", "-3.25", "-0.0", "007.250"] {
        let d = Decimal::from_text(good.to_string());
        assert!(d.is_some(), "{good} should be accepted");
        assert_eq!(d.unwrap().as_text(), good);
    }
}

#[test]
fn decimal_rejects_malformed_text() {
    for bad in ["", "-", ".", "1.", ".5", "1..5", "1.5.6", "1e5", " 1", "1 ", "+1", "NaN"] {
        assert!(Decimal::from_text(bad.to_string()).is_none(), "{bad} should be rejected");
    }
}

#[test]
fn decimal_sign_classification() {
    for nonpos in ["0", "0.0", "-0.0", "-12.5", "000.000"] {
        assert!(!is_positive(nonpos), "{nonpos} should be non-positive");
    }
    for pos in ["0.1", "5", "5.0", "10.00"] {
        assert!(is_positive(pos), "{pos} should be positive");
    }
}

fn is_positive(s: &str) -> bool {
    !Decimal::from_text(s.to_string()).unwrap().nonpositive()
}

#[test]
fn find_char_finds_first() {
    assert_eq!(text::find_char("a,b,c", ','), Some(1));
    assert_eq!(text::find_char("abc", ','), None);
    assert_eq!(text::find_char(",", ','), Some(0));
}
