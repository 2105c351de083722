use tuiplay::double::{round_whole, Double};
use tuiplay::text::{chars_of, push_decimal, push_signed_decimal, push_two_digits, text_before, text_contains};

fn double(x: f64) -> Double {
    Double { bits: x.to_bits() }
}

fn samples() -> Vec<f64> {
    vec![
        0.0, -0.0, 1.0, -1.0, 0.5, -0.5, 0.49999999999999994, 1.5, 2.5, -2.5, 3.0, 3.0000000000000004, 59.999, 60.0,
        99.5, 100.0, 1e9, 2147483647.0, 2147483647.5, 2147483648.0, -2147483648.0, -2147483649.0, 4503599627370495.5,
        9007199254740993.0, 1.8446744073709552e19, 1.8446744073709550e19, 1e300, -1e300, 5e-324, -5e-324, 1e-310,
        f64::MAX, f64::MIN_POSITIVE, f64::INFINITY, f64::NEG_INFINITY, f64::NAN,
    ]
}

#[test]
fn order_is_that_of_the_numbers() {
    for x in samples() {
        for y in samples() {
            assert_eq!(double(x).less_than(double(y)), x < y, "{} {}", x, y);
        }
    }
}

#[test]
fn clamping_keeps_numbers_in_bounds() {
    for x in samples() {
        let r = double(x).clamp(double(0.0), double(100.0));
        assert_eq!(r.bits, x.clamp(0.0, 100.0).to_bits(), "{}", x);
    }
}

#[test]
fn negating_twice_gives_the_number_back() {
    for x in samples() {
        assert_eq!(double(x).negate().bits, (-x).to_bits());
        assert_eq!(double(x).negate().negate().bits, x.to_bits());
    }
}

#[test]
fn whole_parts() {
    for x in samples() {
        assert_eq!(double(x).whole_part(), x.max(0.0) as u64, "{}", x);
    }
    assert_eq!(double(61.9).whole_part(), 61);
}

#[test]
fn nearest_integers() {
    for x in samples() {
        assert_eq!(double(x).nearest_integer(), x.round() as i32, "{}", x);
    }
    assert_eq!(double(99.5).nearest_integer(), 100);
    assert_eq!(double(-2.5).nearest_integer(), -3);
}

#[test]
fn nearest_counts() {
    for x in samples() {
        assert_eq!(double(x).nearest_count(), x.round() as u64, "{}", x);
    }
    assert_eq!(double(2.5).nearest_count(), 3);
}

#[test]
fn whole_numbers_stay_as_they_are() {
    for n in [0i32, 1, 2, 3, 50, 100, 65535, i32::MAX] {
        let d = double(n as f64);
        assert_eq!(d.whole_part(), n as u64);
        assert_eq!(d.nearest_integer(), n);
        assert_eq!(d.nearest_count(), n as u64);
    }
}

#[test]
fn decimal_numbers_are_written() {
    let mut out = String::new();
    push_decimal(&mut out, 0);
    out.push(' ');
    push_decimal(&mut out, 1203);
    out.push(' ');
    push_decimal(&mut out, u64::MAX);
    assert_eq!(out, "0 1203 18446744073709551615");
}

#[test]
fn negative_numbers_have_a_sign() {
    let mut out = String::new();
    push_signed_decimal(&mut out, -5);
    push_signed_decimal(&mut out, 0);
    push_signed_decimal(&mut out, i64::MIN);
    assert_eq!(out, "-50-9223372036854775808");
}

#[test]
fn two_digits_are_filled_up() {
    let mut out = String::new();
    push_two_digits(&mut out, 7, '0');
    push_two_digits(&mut out, 10, '0');
    push_two_digits(&mut out, 3, ' ');
    push_two_digits(&mut out, 123, ' ');
    assert_eq!(out, "0710 3123");
}

#[test]
fn texts_are_found_in_texts() {
    assert!(text_contains("blue moon", "moon"));
    assert!(text_contains("aab", "ab"));
    assert!(text_contains("abc", ""));
    assert!(text_contains("", ""));
    assert!(text_contains("é", "é"));
    assert!(!text_contains("abc", "ac"));
    assert!(!text_contains("a", "aa"));
    assert!(!text_contains("", "a"));
}

#[test]
fn texts_are_ordered_by_their_bytes() {
    assert!(text_before("a", "b"));
    assert!(text_before("", "a"));
    assert!(text_before("a", "ab"));
    assert!(text_before("Z", "a"));
    assert!(text_before("z", "é"));
    assert!(!text_before("a", "a"));
    assert!(!text_before("b", "a"));
    assert!(!text_before("ab", "a"));
}

#[test]
fn characters_of_a_text() {
    assert_eq!(chars_of("aé♪"), vec!['a', 'é', '♪']);
    assert_eq!(chars_of(""), Vec::<char>::new());
}

#[test]
fn whole_numbers_are_rounded_as_doubles_are() {
    let limit = 1i64 << 62;
    let mut numbers = vec![0, 1, 5, 1 << 53, (1 << 53) + 1, (1 << 53) + 3, (1 << 54) - 1, limit, limit - 1, limit - 256, limit - 257];
    let mut n: u64 = 99;
    for _ in 0..2000 {
        n = n.wrapping_mul(6364136223846793005).wrapping_add(1442695040888963407);
        numbers.push((n >> 2) as i64 >> (n % 60));
    }
    for x in numbers {
        for y in [x, -x] {
            assert_eq!(Double::of_whole(y).bits, (y as f64).to_bits(), "{}", y);
            assert_eq!(round_whole(y), y as f64 as i64, "{}", y);
        }
    }
    assert_eq!(Double::of_whole(i64::MAX).bits, (i64::MAX as f64).to_bits());
}
