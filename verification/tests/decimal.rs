use phoneme_align::decimal::{push_decimal, push_signed_decimal};

#[test]
fn push_decimal_writes_digits() {
    for n in [0u64, 7, 10, 99, 100, 12345, 1_000_000_007, u64::MAX] {
        let mut out = String::from("x");
        push_decimal(&mut out, n);
        assert_eq!(out, format!("x{}", n));
    }
}

#[test]
fn push_signed_decimal_writes_sign_and_digits() {
    for i in [0i64, 1, -1, 42, -42, 112_500, -125_000, i64::MAX, i64::MIN] {
        let mut out = String::new();
        push_signed_decimal(&mut out, i);
        assert_eq!(out, i.to_string());
    }
}
