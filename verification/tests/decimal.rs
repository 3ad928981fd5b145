use fzf_launcher::decimal::to_decimal;

#[test]
fn zero_is_a_single_digit() {
    assert_eq!(to_decimal(0), "0");
}

#[test]
fn single_digits() {
    let digits = ["0", "1", "2", "3", "4", "5", "6", "7", "8", "9"];
    for (n, digit) in digits.iter().enumerate() {
        assert_eq!(to_decimal(n), *digit);
    }
}

#[test]
fn several_digits_most_significant_first() {
    assert_eq!(to_decimal(10), "10");
    assert_eq!(to_decimal(42), "42");
    assert_eq!(to_decimal(105), "105");
    assert_eq!(to_decimal(9000), "9000");
    assert_eq!(to_decimal(1234567890), "1234567890");
}

#[test]
fn largest_number() {
    assert_eq!(to_decimal(usize::MAX), format!("{}", usize::MAX));
}

#[test]
fn agrees_with_the_standard_formatter() {
    let mut n: usize = 0;
    for step in 0..2000usize {
        assert_eq!(to_decimal(n), format!("{}", n));
        n = n.wrapping_mul(31).wrapping_add(step).wrapping_add(7);
    }
}

#[test]
fn notation_reads_back_as_the_number() {
    for n in [0usize, 5, 10, 99, 100, 4096, 999_999, usize::MAX] {
        let written = to_decimal(n);
        assert!(written.chars().all(|c| c.is_ascii_digit()));
        assert!(n == 0 || !written.starts_with('0'));
        assert_eq!(written.parse::<usize>().unwrap(), n);
    }
}
