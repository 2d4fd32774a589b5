use sanitizer::{compute_page_numbers, days_from_epoch, format_minutes_to_duration,
    resolution_duration_from_ms};

#[test]
fn format_minutes_renders_hours_and_minutes() {
    assert_eq!(format_minutes_to_duration(125), "2h 5m");
    assert_eq!(format_minutes_to_duration(65), "1h 5m");
    assert_eq!(format_minutes_to_duration(60), "1h 0m");
}

#[test]
fn format_minutes_renders_minutes_only_under_an_hour() {
    assert_eq!(format_minutes_to_duration(59), "59m");
    assert_eq!(format_minutes_to_duration(0), "0m");
}

#[test]
fn resolution_duration_subtracts_and_formats() {
    assert_eq!(resolution_duration_from_ms(0, 3_900_000), "1h 5m");
    assert_eq!(resolution_duration_from_ms(1_000, 61_000), "1m");
}

#[test]
fn resolution_duration_clamps_reversed_order_to_zero() {
    assert_eq!(resolution_duration_from_ms(5_000_000, 1_000), "0m");
}

#[test]
fn page_numbers_center_on_current_page() {
    assert_eq!(compute_page_numbers(7, 10, 5), vec![5, 6, 7, 8, 9]);
}

#[test]
fn page_numbers_clamp_at_the_start() {
    assert_eq!(compute_page_numbers(1, 10, 5), vec![1, 2, 3, 4, 5]);
}

#[test]
fn page_numbers_widen_back_at_the_end() {
    assert_eq!(compute_page_numbers(10, 10, 5), vec![6, 7, 8, 9, 10]);
}

#[test]
fn page_numbers_show_all_when_few_pages() {
    assert_eq!(compute_page_numbers(1, 3, 5), vec![1, 2, 3]);
}

#[test]
fn page_numbers_empty_when_no_pages() {
    assert_eq!(compute_page_numbers(1, 0, 5), Vec::<u32>::new());
}

#[test]
fn days_from_epoch_at_the_epoch() {
    assert_eq!(days_from_epoch(1970, 1, 1), 0);
    assert_eq!(days_from_epoch(1970, 1, 2), 1);
}

#[test]
fn days_from_epoch_handles_leap_years() {
    assert_eq!(days_from_epoch(2024, 3, 1), 19783);
    assert_eq!(days_from_epoch(2024, 2, 29), 19782);
}

#[test]
fn days_from_epoch_clamps_before_the_epoch() {
    assert_eq!(days_from_epoch(1969, 12, 31), 0);
}

#[test]
fn parse_iso_with_time_and_zone() {
    assert_eq!(
        sanitizer::parse_iso_to_ms("2024-03-01T10:30:00Z"),
        Some(1_709_289_000_000)
    );
}

#[test]
fn parse_iso_date_only() {
    assert_eq!(sanitizer::parse_iso_to_ms("2024-03-01"), Some(1_709_251_200_000));
}

#[test]
fn parse_iso_ignores_fraction_and_offset() {
    assert_eq!(
        sanitizer::parse_iso_to_ms("2024-03-01T10:30:45.123Z"),
        Some(1_709_289_045_000)
    );
    assert_eq!(
        sanitizer::parse_iso_to_ms("2024-03-01T10:30:00+02:00"),
        Some(1_709_289_000_000)
    );
}

#[test]
fn parse_iso_rejects_malformed_dates() {
    assert_eq!(sanitizer::parse_iso_to_ms("not-a-date"), None);
    assert_eq!(sanitizer::parse_iso_to_ms("20240301"), None);
    assert_eq!(sanitizer::parse_iso_to_ms(""), None);
}

#[test]
fn resolution_time_between_timestamps() {
    assert_eq!(
        sanitizer::compute_resolution_time("2024-03-01T10:00:00", "2024-03-01T11:05:00"),
        "1h 5m"
    );
}

#[test]
fn resolution_time_missing_or_unreadable() {
    assert_eq!(sanitizer::compute_resolution_time("2024-03-01T10:00:00", ""), "N/A");
    assert_eq!(sanitizer::compute_resolution_time("2024-03-01T10:00:00", "null"), "N/A");
    assert_eq!(sanitizer::compute_resolution_time("bad", "2024-03-01T00:00:00"), "N/A");
}

#[test]
fn resolution_time_clamps_reversed_timestamps() {
    assert_eq!(
        sanitizer::compute_resolution_time("2024-03-01T11:00:00", "2024-03-01T10:00:00"),
        "0m"
    );
}
