use httprs::timing::{RequestTimer, ResponseSpeed, classify_speed, format_duration, u128_to_string};

#[test]
fn test_timer_basic() {
    let timer = RequestTimer::start();
    assert!(timer.total.is_none());
}

#[test]
fn test_format_duration() {
    // durations given in microseconds
    assert_eq!(format_duration(500), "500.00 µs");
    assert_eq!(format_duration(50_000), "50.00 ms");
    assert_eq!(format_duration(2_000_000), "2000.00 ms");
}

#[test]
fn format_duration_fractions() {
    assert_eq!(format_duration(0), "0.00 µs");
    assert_eq!(format_duration(999), "999.00 µs");
    assert_eq!(format_duration(1_000), "1.00 ms");
    assert_eq!(format_duration(1_234), "1.23 ms");
    assert_eq!(format_duration(999_999), "999.99 ms");
}

#[test]
fn decimal_rendering() {
    assert_eq!(u128_to_string(0), "0");
    assert_eq!(u128_to_string(7), "7");
    assert_eq!(u128_to_string(105), "105");
    assert_eq!(u128_to_string(340_282_366_920_938_463_463_374_607_431_768_211_455), "340282366920938463463374607431768211455");
}

#[test]
fn timer_records_and_summarizes() {
    let mut timer = RequestTimer::start();
    assert!(timer.summary().is_none());
    timer.record_first_byte();
    assert!(timer.first_byte.is_some());
    assert!(timer.total.is_none());
    timer.finish();
    let total = timer.total_time().expect("finished");
    let summary = timer.summary().expect("finished");
    assert_eq!(summary.total_micros, total);
    let ttfb = summary.ttfb_micros.expect("first byte recorded");
    let download = summary.download_micros.expect("first byte recorded");
    assert!(ttfb <= total);
    assert_eq!(download, total - ttfb);
}

#[test]
fn timer_summary_without_first_byte() {
    let mut timer = RequestTimer::start();
    timer.finish();
    let summary = timer.summary().expect("finished");
    assert!(summary.ttfb_micros.is_none());
    assert!(summary.download_micros.is_none());
}

#[test]
fn speed_thresholds() {
    assert_eq!(classify_speed(99_999), ResponseSpeed::Excellent);
    assert_eq!(classify_speed(100_000), ResponseSpeed::Good);
    assert_eq!(classify_speed(499_999), ResponseSpeed::Good);
    assert_eq!(classify_speed(500_000), ResponseSpeed::Slow);
    assert_eq!(classify_speed(999_999), ResponseSpeed::Slow);
    assert_eq!(classify_speed(1_000_000), ResponseSpeed::VerySlow);
    assert_eq!(ResponseSpeed::Excellent.hint(), "🚀 Excellent response time!");
    assert_eq!(ResponseSpeed::VerySlow.hint(), "❌ Very slow response");
}
