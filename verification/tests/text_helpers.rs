use ocio::text::{eq_ignore_ascii_case, push_decimal, push_hex};
use ocio::TokensManager;

#[test]
fn hex_digits_as_format_writes_them() {
    for n in [0u64, 9, 10, 15, 16, 255, 4096, u64::MAX] {
        let mut s = String::new();
        push_hex(&mut s, n);
        assert_eq!(s, format!("{:x}", n));
    }
}

#[test]
fn decimal_digits_as_format_writes_them() {
    for n in [0u64, 7, 10, 1234, u32::MAX as u64, u64::MAX] {
        let mut s = String::from("x");
        push_decimal(&mut s, n);
        assert_eq!(s, format!("x{}", n));
    }
}

#[test]
fn ascii_case_folding() {
    assert!(eq_ignore_ascii_case("AbC", "aBc"));
    assert!(!eq_ignore_ascii_case("abc", "abd"));
    assert!(!eq_ignore_ascii_case("abc", "ab"));
    assert!(eq_ignore_ascii_case("ÉtÉ", "ÉtÉ"));
    assert!(!eq_ignore_ascii_case("É", "é"));
}

#[test]
fn tokens_add_has_remove() {
    let mut t = TokensManager::new();
    t.add_token("Alpha");
    t.add_token("alpha");
    t.add_token("beta");
    assert_eq!(t.get_num_tokens(), 2);
    assert!(t.has_token("ALPHA"));
    assert_eq!(t.get_token(0), "Alpha");
    assert_eq!(t.get_token(9), "");
    t.remove_token("BETA");
    assert!(!t.has_token("beta"));
    assert_eq!(t.get_num_tokens(), 1);
    t.clear_tokens();
    assert_eq!(t.get_num_tokens(), 0);
}
