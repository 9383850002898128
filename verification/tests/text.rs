use aviation::decimal::{
    count_digits, digit_text, magnitude_of, push_decimal, push_padded, push_signed_padded,
    push_tenths, push_zero_padded,
};
use aviation::version::{
    get_version, VERSION_CHANNEL, VERSION_MAJOR, VERSION_MINOR, VERSION_PATCH,
};

#[test]
fn version_is_numbers_and_channel() {
    assert_eq!(get_version(), "0.1.0 Alpha");
    assert_eq!(
        get_version(),
        format!("{}.{}.{} {}", VERSION_MAJOR, VERSION_MINOR, VERSION_PATCH, VERSION_CHANNEL)
    );
}

#[test]
fn digits_one_by_one() {
    let all = ["0", "1", "2", "3", "4", "5", "6", "7", "8", "9"];
    for d in 0..10u64 {
        assert_eq!(digit_text(d), all[d as usize]);
    }
}

#[test]
fn decimal_digits_of_a_number() {
    for n in [0u64, 7, 10, 99, 100, 12345, 1_000_000, u64::MAX] {
        let mut text = String::from("n=");
        push_decimal(&mut text, n);
        assert_eq!(text, format!("n={}", n));
        assert_eq!(count_digits(n), n.to_string().len() as u64);
    }
}

#[test]
fn zero_padding_fills_to_the_width_and_never_cuts() {
    for n in [0u64, 7, 10, 99, 100, 12345] {
        for width in 0..8u64 {
            let mut text = String::new();
            push_zero_padded(&mut text, n, width);
            assert_eq!(text, format!("{:0w$}", n, w = width as usize));
        }
    }
}

#[test]
fn padding_counts_the_minus_sign() {
    for value in [0i64, 5, -5, 12, -12, 123, -123, 2023, -2023, i64::MAX, i64::MIN] {
        for width in 0..7u64 {
            let mut text = String::from(">");
            push_padded(&mut text, value, width);
            assert_eq!(text, format!(">{:0w$}", value, w = width as usize));
            let mut signed = String::from(">");
            push_signed_padded(&mut signed, value, width);
            assert_eq!(signed, format!(">{:+0w$}", value, w = width as usize));
        }
    }
}

#[test]
fn magnitude_of_the_extremes() {
    assert_eq!(magnitude_of(0), 0);
    assert_eq!(magnitude_of(-1), 1);
    assert_eq!(magnitude_of(i64::MAX), i64::MAX as u64);
    assert_eq!(magnitude_of(i64::MIN), 1u64 << 63);
}

#[test]
fn tenths_drop_a_zero_fraction() {
    let cases = [
        (0i64, "0"),
        (1, "0.1"),
        (9, "0.9"),
        (10, "1"),
        (151, "15.1"),
        (150, "15"),
        (-7, "-0.7"),
        (-10, "-1"),
        (-123, "-12.3"),
    ];
    for (value, expected) in cases {
        let mut text = String::new();
        push_tenths(&mut text, value);
        assert_eq!(text, expected);
    }
}

#[test]
fn tenths_print_as_the_float_does() {
    for value in -300i64..300 {
        let mut text = String::new();
        push_tenths(&mut text, value);
        let float = value as f64 / 10.0;
        if value == 0 {
            assert_eq!(text, "0");
        } else {
            assert_eq!(text, format!("{}", float));
        }
    }
}
