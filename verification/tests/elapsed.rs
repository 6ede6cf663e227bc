use monit::elapsed::{format_elapsed, Elapsed};

#[test]
fn elapsed_three_seconds_seven_millis() {
    let e = Elapsed::new(3, 7_000_000).unwrap();
    assert_eq!(format_elapsed(e), "3.007");
}

#[test]
fn elapsed_zero() {
    let e = Elapsed::new(0, 0).unwrap();
    assert_eq!(format_elapsed(e), "0.000");
}

#[test]
fn elapsed_cuts_off_below_a_millisecond() {
    assert_eq!(format_elapsed(Elapsed::new(0, 999_999).unwrap()), "0.000");
    assert_eq!(format_elapsed(Elapsed::new(0, 1_000_000).unwrap()), "0.001");
    assert_eq!(format_elapsed(Elapsed::new(12, 345_678_901).unwrap()), "12.345");
    assert_eq!(format_elapsed(Elapsed::new(1, 999_999_999).unwrap()), "1.999");
    assert_eq!(format_elapsed(Elapsed::new(1, 40_000_000).unwrap()), "1.040");
}

#[test]
fn elapsed_largest_span() {
    let e = Elapsed::new(u64::MAX, 999_999_999).unwrap();
    assert_eq!(format_elapsed(e), "18446744073709551615.999");
}

#[test]
fn elapsed_rejects_a_fraction_of_a_second_or_more() {
    assert!(Elapsed::new(0, 1_000_000_000).is_none());
    assert!(Elapsed::new(0, u32::MAX).is_none());
    assert!(Elapsed::new(0, 999_999_999).is_some());
}

#[test]
fn elapsed_parts() {
    let e = Elapsed::new(5, 123_456_789).unwrap();
    assert_eq!(e.as_secs(), 5);
    assert_eq!(e.subsec_millis(), 123);
}

#[test]
fn elapsed_agrees_with_std_duration() {
    let d = std::time::Duration::new(61, 2_500_000);
    let e = Elapsed::new(d.as_secs(), d.subsec_nanos()).unwrap();
    assert_eq!(e.as_secs(), d.as_secs());
    assert_eq!(e.subsec_millis(), d.subsec_millis());
    assert_eq!(format_elapsed(e), format!("{}.{:03}", d.as_secs(), d.subsec_millis()));
}

#[test]
fn elapsed_text_is_digits_dot_three_digits() {
    let samples = [
        (0u64, 0u32),
        (0, 999_999_999),
        (9, 1),
        (10, 10_000_000),
        (99, 100_000_000),
        (1_000_000, 5_000_000),
        (u64::MAX, 0),
    ];
    for (secs, nanos) in samples {
        let text = format_elapsed(Elapsed::new(secs, nanos).unwrap());
        let (whole, fraction) = text.split_once('.').unwrap();
        assert!(!whole.is_empty());
        assert!(whole.chars().all(|c| c.is_ascii_digit()));
        assert_eq!(fraction.len(), 3);
        assert!(fraction.chars().all(|c| c.is_ascii_digit()));
        assert_eq!(whole.parse::<u64>().unwrap(), secs);
        assert_eq!(fraction.parse::<u32>().unwrap(), nanos / 1_000_000);
    }
}
