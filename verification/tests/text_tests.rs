use rsc::text::{
    bool_text, decimal_text, percent_text, same, signed_decimal_text, starts_with,
    to_chars, trim,
};

#[test]
fn decimals() {
    for n in [0u64, 1, 9, 10, 99, 100, 1024, u64::MAX] {
        assert_eq!(decimal_text(n), n.to_string());
    }
    for n in [0i32, 7, -1, -10, i32::MAX, i32::MIN] {
        assert_eq!(signed_decimal_text(n), n.to_string());
    }
    assert_eq!(percent_text(80), "80%");
}

#[test]
fn words_for_booleans() {
    assert_eq!(bool_text(true), "true");
    assert_eq!(bool_text(false), "false");
}

#[test]
fn trimming_agrees_with_the_standard_library() {
    for s in ["", " ", "a", " a ", "\t\na b\r\n", "\u{3000}x\u{a0}", "\u{200b}x", "é "] {
        assert_eq!(trim(s), s.trim());
    }
    for u in 0u32..0x3100 {
        if let Some(c) = char::from_u32(u) {
            let s = format!("{}x{}", c, c);
            assert_eq!(trim(&s), s.trim(), "{:x}", u);
        }
    }
}

#[test]
fn characters_and_back() {
    assert_eq!(to_chars("aé€"), vec!['a', 'é', '€']);
}

#[test]
fn comparisons() {
    assert!(same("abc", "abc"));
    assert!(!same("abc", "abd"));
    assert!(starts_with("0 1", "0 "));
    assert!(!starts_with("0", "0 "));
    assert!(starts_with("x", ""));
}
