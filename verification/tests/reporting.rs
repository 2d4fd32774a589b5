use sanitizer::{build_incidents_csv, capitalize_first, format_period_date, IncidentRecord};

#[test]
fn period_date_names_each_month() {
    assert_eq!(format_period_date("2024-01-15"), "Jan 15");
    assert_eq!(format_period_date("2024-06-30"), "Jun 30");
    assert_eq!(format_period_date("2024-12-01"), "Dec 1");
}

#[test]
fn period_date_strips_leading_zero_of_the_day() {
    assert_eq!(format_period_date("2024-03-05"), "Mar 5");
}

#[test]
fn period_date_ignores_the_time_part() {
    assert_eq!(format_period_date("2024-10-07T12:30:00Z"), "Oct 7");
}

#[test]
fn period_date_unknown_month_and_short_input() {
    assert_eq!(format_period_date("2024-13-05"), "??? 5");
    assert_eq!(format_period_date("2024-1-05"), "??? 5");
    assert_eq!(format_period_date("no date here"), "no date here");
    assert_eq!(format_period_date("2024-03"), "2024-03");
}

#[test]
fn capitalize_first_letter_only() {
    assert_eq!(capitalize_first("hello"), "Hello");
    assert_eq!(capitalize_first("Already"), "Already");
    assert_eq!(capitalize_first("x"), "X");
    assert_eq!(capitalize_first(""), "");
}

#[test]
fn capitalize_handles_accented_letters() {
    assert_eq!(capitalize_first("éa"), "Éa");
}

fn record(id: &str, resolved: Option<&str>) -> IncidentRecord {
    IncidentRecord {
        incident_id: id.to_string(),
        source: "pager".to_string(),
        severity: "high".to_string(),
        outcome: "resolved".to_string(),
        failure_type: "timeout".to_string(),
        created_at: "2024-03-01T10:00:00".to_string(),
        resolved_at: resolved.map(|s| s.to_string()),
    }
}

#[test]
fn csv_has_header_and_quoted_rows() {
    let rows = vec![record("I-1", Some("2024-03-01T11:00:00"))];
    let csv = build_incidents_csv(&rows);
    let expected = "Incident ID,Source,Severity,Status,Failure Type,Created At,Resolved At\n\
        \"I-1\",\"pager\",\"high\",\"resolved\",\"timeout\",\"2024-03-01T10:00:00\",\"2024-03-01T11:00:00\"\n";
    assert_eq!(csv, expected);
}

#[test]
fn csv_missing_resolution_shows_na() {
    let rows = vec![record("I-1", None), record("I-2", Some("x"))];
    let csv = build_incidents_csv(&rows);
    let lines: Vec<&str> = csv.lines().collect();
    assert_eq!(lines.len(), 3);
    assert!(lines[1].ends_with("\"N/A\""));
    assert!(lines[2].ends_with("\"x\""));
}

#[test]
fn csv_of_no_rows_is_just_the_header() {
    let csv = build_incidents_csv(&Vec::new());
    assert_eq!(
        csv,
        "Incident ID,Source,Severity,Status,Failure Type,Created At,Resolved At\n"
    );
}
