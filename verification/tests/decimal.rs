use h3_stream::decimal::to_decimal;

#[test]
fn zero_is_one_digit() {
    assert_eq!(to_decimal(0), "0");
}

#[test]
fn single_digits() {
    for (n, text) in [(1u64, "1"), (5, "5"), (9, "9")] {
        assert_eq!(to_decimal(n), text);
    }
}

#[test]
fn several_digits() {
    assert_eq!(to_decimal(10), "10");
    assert_eq!(to_decimal(42), "42");
    assert_eq!(to_decimal(100), "100");
    assert_eq!(to_decimal(1_234_567_890), "1234567890");
}

#[test]
fn largest_value() {
    assert_eq!(to_decimal(u64::MAX), "18446744073709551615");
}

#[test]
fn agrees_with_the_standard_notation() {
    let mut n: u64 = 1;
    for _ in 0..64 {
        assert_eq!(to_decimal(n), format!("{}", n));
        assert_eq!(to_decimal(n - 1), format!("{}", n - 1));
        n = n.wrapping_mul(2);
    }
}
