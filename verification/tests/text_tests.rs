use ctf_man::text::{i64_to_decimal, parse_u64, trim, u64_to_decimal};

#[test]
fn decimal_texts() {
    assert_eq!(u64_to_decimal(0), "0");
    assert_eq!(u64_to_decimal(250), "250");
    assert_eq!(u64_to_decimal(u64::MAX), u64::MAX.to_string());
    assert_eq!(i64_to_decimal(-42), "-42");
    assert_eq!(i64_to_decimal(i64::MIN), i64::MIN.to_string());
    assert_eq!(i64_to_decimal(i64::MAX), i64::MAX.to_string());
}

#[test]
fn parse_u64_agrees_with_std() {
    for s in ["0", "250", "+7", "+", "", "-1", "12a", " 1", "18446744073709551615", "18446744073709551616", "007"] {
        assert_eq!(parse_u64(s), s.parse::<u64>().ok(), "input {:?}", s);
    }
}

#[test]
fn trim_removes_unicode_white_space_at_both_ends() {
    assert_eq!(trim("\u{3000} a b\t\n"), "a b");
    assert_eq!(trim("  "), "");
    assert_eq!(trim("x"), "x");
    assert_eq!(trim("\u{85}y\u{a0}"), "y");
}
