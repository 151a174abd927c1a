use drue::text::{digit_text, write_numeral};
use drue::utils::{apm_to_hex, PRECISION_LIMIT};

/// The code worked out in floating point.
fn in_floating_point(value: u64) -> String {
    let scaled = (value as f64) / 4.0 / 16.0;
    let (first, second) = (scaled.floor(), scaled.fract() * 16.0);
    format!("{:x}{:x}0000", first as i8, second as i8)
}

fn written(n: u128, radix: u8) -> String {
    let mut text = String::new();
    write_numeral(&mut text, n, radix);
    text
}

#[test]
fn digits_are_lower_case() {
    let all: Vec<&str> = (0..16u8).map(digit_text).collect();
    assert_eq!(all.concat(), "0123456789abcdef");
}

#[test]
fn numerals_in_decimal() {
    assert_eq!(written(0, 10), "0");
    assert_eq!(written(7, 10), "7");
    assert_eq!(written(10, 10), "10");
    assert_eq!(written(1_000_001, 10), "1000001");
    assert_eq!(written(u128::MAX, 10), u128::MAX.to_string());
}

#[test]
fn numerals_in_hexadecimal() {
    assert_eq!(written(0, 16), "0");
    assert_eq!(written(15, 16), "f");
    assert_eq!(written(16, 16), "10");
    assert_eq!(written(127, 16), "7f");
    assert_eq!(written(0xdead_beef, 16), "deadbeef");
    assert_eq!(written(u128::MAX, 16), format!("{:x}", u128::MAX));
}

#[test]
fn numerals_in_other_bases() {
    assert_eq!(written(5, 2), "101");
    assert_eq!(written(0, 2), "0");
    assert_eq!(written(64, 8), "100");
    assert_eq!(written(u128::MAX, 2), format!("{:b}", u128::MAX));
}

#[test]
fn numeral_is_written_at_the_end() {
    let mut text = String::from("n = ");
    write_numeral(&mut text, 42, 10);
    write_numeral(&mut text, 42, 16);
    assert_eq!(text, "n = 422a");
}

#[test]
fn code_of_small_values() {
    assert_eq!(apm_to_hex(0), "000000");
    assert_eq!(apm_to_hex(3), "000000");
    assert_eq!(apm_to_hex(4), "010000");
    assert_eq!(apm_to_hex(63), "0f0000");
    assert_eq!(apm_to_hex(64), "100000");
    assert_eq!(apm_to_hex(300), "4b0000");
    assert_eq!(apm_to_hex(1023), "ff0000");
    assert_eq!(apm_to_hex(1024), "1000000");
}

#[test]
fn code_is_capped() {
    assert_eq!(apm_to_hex(8127), "7ef0000");
    assert_eq!(apm_to_hex(8128), "7f00000");
    assert_eq!(apm_to_hex(8191), "7ff0000");
    assert_eq!(apm_to_hex(8192), "7f00000");
    assert_eq!(apm_to_hex(1_000_000), "7f00000");
    assert_eq!(apm_to_hex(1_000_007), "7f10000");
    assert_eq!(apm_to_hex(u64::MAX), "7f00000");
}

#[test]
fn code_rounds_where_precision_ends() {
    assert_eq!(PRECISION_LIMIT, 1 << 53);
    let limit = PRECISION_LIMIT;
    assert_eq!(apm_to_hex(limit - 1), "7ff0000");
    assert_eq!(apm_to_hex(limit), "7f00000");
    // Halfway between two neighbours: to the even one.
    assert_eq!(apm_to_hex(limit + 3), "7f10000");
    assert_eq!(apm_to_hex(limit + 5), "7f10000");
    assert_eq!(apm_to_hex(limit + 7), "7f20000");
    assert_eq!(apm_to_hex(limit + 63), "7f00000");
    assert_eq!(apm_to_hex(2 * limit + 6), "7f20000");
    assert_eq!(apm_to_hex(2 * limit + 7), "7f20000");
}

#[test]
fn code_agrees_with_floating_point() {
    for value in 0..20_000u64 {
        assert_eq!(apm_to_hex(value), in_floating_point(value), "{}", value);
    }
    for exponent in 13..64u32 {
        let power = 1u64 << exponent;
        for offset in 0..300u64 {
            for value in [power - 1 - offset, power + offset] {
                assert_eq!(apm_to_hex(value), in_floating_point(value), "{}", value);
            }
        }
    }
    for offset in 0..300u64 {
        let value = u64::MAX - offset;
        assert_eq!(apm_to_hex(value), in_floating_point(value), "{}", value);
    }
    let mut value: u64 = 1;
    for _ in 0..5_000 {
        value = value.wrapping_mul(6364136223846793005).wrapping_add(1442695040888963407);
        assert_eq!(apm_to_hex(value), in_floating_point(value), "{}", value);
        let shifted = value >> (value % 12);
        assert_eq!(apm_to_hex(shifted), in_floating_point(shifted), "{}", shifted);
    }
}
