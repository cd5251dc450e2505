use eta_format::decimal::{push_decimal, to_decimal};

#[test]
fn zero_is_a_single_digit() {
    assert_eq!(to_decimal(0), "0");
}

#[test]
fn single_digits() {
    let digits = ["0", "1", "2", "3", "4", "5", "6", "7", "8", "9"];
    for (n, digit) in digits.iter().enumerate() {
        assert_eq!(to_decimal(n as u64), *digit);
    }
}

#[test]
fn digits_run_from_most_to_least_significant() {
    assert_eq!(to_decimal(10), "10");
    assert_eq!(to_decimal(12345), "12345");
    assert_eq!(to_decimal(9_876_543_210), "9876543210");
}

#[test]
fn inner_and_trailing_zeros_are_kept() {
    assert_eq!(to_decimal(1_000_000), "1000000");
    assert_eq!(to_decimal(100_200_300), "100200300");
}

#[test]
fn largest_value() {
    assert_eq!(to_decimal(u64::MAX), "18446744073709551615");
}

#[test]
fn agrees_with_the_standard_notation() {
    let mut n: u64 = 1;
    for _ in 0..64 {
        assert_eq!(to_decimal(n), n.to_string());
        assert_eq!(to_decimal(n - 1), (n - 1).to_string());
        n = n.wrapping_mul(2);
    }
}

#[test]
fn push_appends_to_what_is_there() {
    let mut text = String::from("about ");
    push_decimal(&mut text, 42);
    assert_eq!(text, "about 42");
    push_decimal(&mut text, 0);
    assert_eq!(text, "about 420");
}
