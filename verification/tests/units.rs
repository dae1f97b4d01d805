use sps_pipeline::units::{decimal_text, format_bytes, format_speed};

/// The same figure computed in hardware floating point.
fn float_size(bytes: u64) -> String {
    let names = ["B", "kB", "MB", "GB"];
    let mut value = bytes as f64;
    let mut unit = 0;
    while value >= 1000.0 && unit < names.len() - 1 {
        value /= 1000.0;
        unit += 1;
    }
    if unit == 0 {
        format!("{bytes}B")
    } else {
        format!("{:.1}{}", value, names[unit])
    }
}

fn next(state: &mut u64) -> u64 {
    *state = state
        .wrapping_mul(6364136223846793005)
        .wrapping_add(1442695040888963407);
    *state
}

#[test]
fn decimal_text_of_small_and_large_numbers() {
    assert_eq!(decimal_text(0), "0");
    assert_eq!(decimal_text(7), "7");
    assert_eq!(decimal_text(10), "10");
    assert_eq!(decimal_text(1234567890), "1234567890");
    assert_eq!(decimal_text(u128::MAX), u128::MAX.to_string());
}

#[test]
fn format_bytes_below_one_thousand_is_a_bare_count() {
    assert_eq!(format_bytes(0), "0B");
    assert_eq!(format_bytes(1), "1B");
    assert_eq!(format_bytes(999), "999B");
}

#[test]
fn format_bytes_steps_by_one_thousand() {
    assert_eq!(format_bytes(1000), "1.0kB");
    assert_eq!(format_bytes(1_500_000), "1.5MB");
    assert_eq!(format_bytes(1_000_000), "1.0MB");
    assert_eq!(format_bytes(1_000_000_000), "1.0GB");
    assert_eq!(format_bytes(2_500_000_000), "2.5GB");
}

#[test]
fn format_bytes_keeps_gigabytes_as_the_last_unit() {
    assert_eq!(format_bytes(1_000_000_000_000), "1000.0GB");
    assert_eq!(format_bytes(u64::MAX), "18446744073.7GB");
}

#[test]
fn format_bytes_rounds_up_to_one_thousand_without_changing_unit() {
    assert_eq!(format_bytes(999_949), "999.9kB");
    assert_eq!(format_bytes(999_950), "1000.0kB");
    assert_eq!(format_bytes(999_999), "1000.0kB");
}

#[test]
fn format_bytes_breaks_exact_ties_to_even() {
    assert_eq!(format_bytes(1_250), "1.2kB");
    assert_eq!(format_bytes(1_750), "1.8kB");
    assert_eq!(format_bytes(1_250_000), "1.2MB");
    assert_eq!(format_bytes(2_750_000_000), "2.8GB");
}

#[test]
fn format_bytes_follows_binary64_on_inexact_ties() {
    assert_eq!(format_bytes(1_050), "1.1kB");
    assert_eq!(format_bytes(1_150), "1.1kB");
    assert_eq!(format_bytes(1_350), "1.4kB");
    assert_eq!(format_bytes(1_450), "1.4kB");
    for bytes in [1_050u64, 1_150, 1_350, 1_450, 8_050, 64_450, 512_350] {
        assert_eq!(format_bytes(bytes), float_size(bytes));
    }
}

#[test]
fn format_bytes_agrees_with_binary64_on_every_kilobyte_tie() {
    let mut bytes: u64 = 1_050;
    while bytes < 1_000_000 {
        assert_eq!(format_bytes(bytes), float_size(bytes), "{bytes}");
        bytes += 100;
    }
}

#[test]
fn format_bytes_agrees_with_binary64_on_megabyte_and_gigabyte_ties() {
    let mut state: u64 = 0x5eed;
    for _ in 0..20_000 {
        let mega = 1_000_000 + (next(&mut state) % 999_000_000) / 100_000 * 100_000 + 50_000;
        assert_eq!(format_bytes(mega), float_size(mega), "{mega}");
        let giga = 1_000_000_000
            + (next(&mut state) % 5_000_000_000_000) / 100_000_000 * 100_000_000
            + 50_000_000;
        assert_eq!(format_bytes(giga), float_size(giga), "{giga}");
    }
}

#[test]
fn format_bytes_agrees_with_binary64_on_scattered_counts() {
    let mut state: u64 = 0xfeed_beef;
    for _ in 0..20_000 {
        let raw = next(&mut state);
        let shift = next(&mut state) % 64;
        let bytes = raw >> shift;
        assert_eq!(format_bytes(bytes), float_size(bytes), "{bytes}");
    }
}

#[test]
fn format_bytes_agrees_with_binary64_near_unit_boundaries() {
    for base in [1_000u64, 1_000_000, 1_000_000_000, 1_000_000_000_000] {
        for delta in 0..2_000u64 {
            let below = base - 1_000 + delta;
            assert_eq!(format_bytes(below), float_size(below), "{below}");
        }
    }
    for k in 53..64u32 {
        let edge = 1u64 << k;
        for delta in 0..600u64 {
            let bytes = edge - 300 + delta;
            assert_eq!(format_bytes(bytes), float_size(bytes), "{bytes}");
        }
    }
    for delta in 0..5_000u64 {
        let bytes = u64::MAX - delta;
        assert_eq!(format_bytes(bytes), float_size(bytes), "{bytes}");
    }
}

#[test]
fn format_speed_below_one_byte_per_second() {
    assert_eq!(format_speed(0), "0 B/s");
}

#[test]
fn format_speed_of_two_thousand_bytes_per_second() {
    assert_eq!(format_speed(2_000), "2.0kB/s");
}

#[test]
fn format_speed_appends_per_second_to_the_size() {
    assert_eq!(format_speed(1), "1B/s");
    assert_eq!(format_speed(999), "999B/s");
    assert_eq!(format_speed(1_500_000), "1.5MB/s");
    assert_eq!(format_speed(3_200_000_000), "3.2GB/s");
}
