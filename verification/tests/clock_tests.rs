use inclinometer::clock::{elapsed_micros_u32, has_passed, is_measurable, TICKS_PER_SECOND};

#[test]
fn ticks_are_those_of_the_time_crate() {
    assert_eq!(TICKS_PER_SECOND, embassy_time::TICK_HZ);
}

#[test]
fn elapsed_time_in_microseconds() {
    assert_eq!(elapsed_micros_u32(7, 7), 0);
    assert_eq!(elapsed_micros_u32(0, 1), 30);
    assert_eq!(elapsed_micros_u32(100, 102), 61);
    assert_eq!(elapsed_micros_u32(0, 32_768), 1_000_000);
    assert_eq!(elapsed_micros_u32(32_768, 3 * 32_768), 2_000_000);
}

#[test]
fn elapsed_time_stops_at_what_32_bits_hold() {
    assert_eq!(elapsed_micros_u32(0, 140_737_488), 4_294_967_285);
    assert_eq!(elapsed_micros_u32(0, 140_737_489), u32::MAX);
    assert_eq!(elapsed_micros_u32(0, 200_000_000), u32::MAX);
    assert_eq!(elapsed_micros_u32(0, u64::MAX / 15_625), u32::MAX);
}

#[test]
fn half_a_second_has_passed() {
    assert!(!has_passed(10, 10 + 16_383, 500));
    assert!(has_passed(10, 10 + 16_384, 500));
    assert!(has_passed(0, 0, 0));
    assert!(!has_passed(0, 32, 1));
    assert!(has_passed(0, 33, 1));
}

#[test]
fn measurable_times() {
    assert!(is_measurable(5, 5));
    assert!(!is_measurable(6, 5));
    assert!(is_measurable(0, u64::MAX / 15_625));
    assert!(!is_measurable(0, u64::MAX / 15_625 + 1));
}

#[test]
fn longer_times_are_not_told_shorter() {
    let mut last = 0;
    for now in (0..150_000_000u64).step_by(12_345) {
        let micros = elapsed_micros_u32(0, now);
        assert!(last <= micros);
        if micros < u32::MAX {
            assert!(micros as u64 * 32_768 <= now * 1_000_000);
            assert!(now * 1_000_000 < (micros as u64 + 1) * 32_768);
        }
        last = micros;
    }
}
