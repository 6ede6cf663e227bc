use monit::text::{push_decimal, push_zero_padded};

fn decimal(n: u64) -> String {
    let mut out = String::new();
    push_decimal(&mut out, n);
    out
}

fn padded(n: u64, width: u64) -> String {
    let mut out = String::new();
    push_zero_padded(&mut out, n, width);
    out
}

#[test]
fn decimal_numerals() {
    assert_eq!(decimal(0), "0");
    assert_eq!(decimal(9), "9");
    assert_eq!(decimal(10), "10");
    assert_eq!(decimal(1234567890), "1234567890");
    assert_eq!(decimal(u64::MAX), "18446744073709551615");
}

#[test]
fn decimal_appends() {
    let mut out = String::from("n=");
    push_decimal(&mut out, 42);
    assert_eq!(out, "n=42");
}

#[test]
fn zero_padded_numerals() {
    assert_eq!(padded(7, 3), "007");
    assert_eq!(padded(0, 3), "000");
    assert_eq!(padded(42, 3), "042");
    assert_eq!(padded(999, 3), "999");
    assert_eq!(padded(1234, 3), "1234");
    assert_eq!(padded(5, 0), "5");
    assert_eq!(padded(5, 1), "5");
    assert_eq!(padded(0, 0), "0");
    assert_eq!(padded(1, 25), "0000000000000000000000001");
}

#[test]
fn zero_padded_appends() {
    let mut out = String::from("x");
    push_zero_padded(&mut out, 5, 2);
    assert_eq!(out, "x05");
}
