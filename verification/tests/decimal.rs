use vcam_server::decimal::{append_decimal, decimal_digits};

#[test]
fn digits_most_significant_first() {
    assert_eq!(decimal_digits(0), vec![0]);
    assert_eq!(decimal_digits(907), vec![9, 0, 7]);
    assert_eq!(decimal_digits(u64::MAX).len(), 20);
}

#[test]
fn decimal_text_is_appended() {
    let mut s = String::from("n=");
    append_decimal(&mut s, 1_228_800);
    assert_eq!(s, "n=1228800");
    let mut t = String::new();
    append_decimal(&mut t, u64::MAX);
    assert_eq!(t, u64::MAX.to_string());
}
