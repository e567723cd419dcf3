//! Decimal rendering of integer literals.

use pgdog::decimal::{i32_to_string, u64_to_string};

#[test]
fn renders_zero() {
    assert_eq!(u64_to_string(0), "0");
    assert_eq!(i32_to_string(0), "0");
}

#[test]
fn renders_positive_values() {
    assert_eq!(u64_to_string(5), "5");
    assert_eq!(u64_to_string(42), "42");
    assert_eq!(u64_to_string(18446744073709551615), "18446744073709551615");
    assert_eq!(i32_to_string(2147483647), "2147483647");
}

#[test]
fn renders_negative_values() {
    assert_eq!(i32_to_string(-7), "-7");
    assert_eq!(i32_to_string(-2147483648), "-2147483648");
}
