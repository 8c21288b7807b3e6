use tracing_tree::time::{
    format_timestamp, format_timestamp_with_decimals, format_uptime, style_timestamp,
};
use tracing_tree::{FormatTime, Uptime, UtcDateTime};

const MS: u64 = 1_000_000;
const S: u64 = 1_000_000_000;

#[test]
fn short_form_scales_units() {
    assert_eq!(format_timestamp(false, 5 * MS), "  5ms");
    assert_eq!(format_timestamp(false, 999 * MS + 999_999), "999ms");
    assert_eq!(format_timestamp(false, 1500 * MS), "  1s ");
    assert_eq!(format_timestamp(false, 59 * S + 999 * MS), " 59s ");
    assert_eq!(format_timestamp(false, 125 * S), "  2m ");
    assert_eq!(format_timestamp(false, 0), "  0ms");
    assert_eq!(format_timestamp(false, 100_000 * S), "1666m ");
}

#[test]
fn precise_form_has_two_decimals() {
    assert_eq!(format_timestamp_with_decimals(false, 1_500), " 1.50μs");
    assert_eq!(format_timestamp_with_decimals(false, 2_345_000), " 2.35ms");
    assert_eq!(format_timestamp_with_decimals(false, 3_500_000_000), " 3.50s ");
    assert_eq!(format_timestamp_with_decimals(false, 0), " 0.00μs");
    assert_eq!(style_timestamp(false, true, 7 * MS), " 7.00ms");
    assert_eq!(style_timestamp(false, false, 7 * MS), "  7ms");
}

#[test]
fn dimmed_when_colored() {
    assert_eq!(format_timestamp(true, 5 * MS), "\u{1b}[2m  5\u{1b}[0m\u{1b}[2mms\u{1b}[0m");
}

#[test]
fn uptime_text() {
    assert_eq!(format_uptime(3 * S + 4_000), "   3.000004s");
    assert_eq!(format_uptime(12_345 * S), "12345.000000s");
    let u = Uptime::default();
    assert!(!u.higher_precision);
    let text = u.format_time();
    assert!(text.ends_with('s') && text.contains('.'));
    assert_eq!(u.style_timestamp(false, 2 * S), "  2s ");
    let from: Uptime = std::time::Instant::now().into();
    assert!(!from.higher_precision);
}

#[test]
fn timers() {
    assert_eq!(().format_time(), "");
    assert_eq!(().style_timestamp(true, 5 * MS), "");
    let utc = UtcDateTime { higher_precision: true };
    assert_eq!(utc.style_timestamp(false, 1_500), " 1.50μs");
    assert!(!utc.format_time().is_empty());
    let by_ref = &utc;
    assert_eq!(by_ref.style_timestamp(false, 3 * S), " 3.00s ");
    let local = tracing_tree::LocalDateTime::default();
    assert!(!local.format_time().is_empty());
    assert_eq!(local.style_timestamp(false, 3 * S), "  3s ");
}
