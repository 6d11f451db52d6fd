use chrono::TimeZone;
use timecat::alert::{AlertCandidate, AlertKind, AlertState};
use timecat::events::{parse_calendar_event, CalendarEvent};
use timecat::json::{parse_calendar_api_event, JsonValue};
use timecat::time::LocalDateTime;
use timecat::width::{centered_x, display_width};

fn formatted(t: &LocalDateTime, format: &str) -> String {
    chrono::NaiveDate::from_ymd_opt(t.year, t.month, t.day)
        .unwrap()
        .and_hms_opt(t.hour, t.minute, t.second)
        .unwrap()
        .format(format)
        .to_string()
}

fn in_utc_plus_nine(t: &LocalDateTime, format: &str) -> String {
    chrono::FixedOffset::east_opt(9 * 3600)
        .unwrap()
        .timestamp_opt(t.secs, t.nanos)
        .unwrap()
        .format(format)
        .to_string()
}

fn some_moment() -> LocalDateTime {
    LocalDateTime {
        secs: 1_782_464_400,
        nanos: 0,
        offset: 0,
        year: 2026,
        month: 6,
        day: 26,
        hour: 9,
        minute: 0,
        second: 0,
    }
}

#[test]
fn parses_three_column_tsv_event() {
    let event: CalendarEvent =
        parse_calendar_event("2026-06-26 09:00\t2026-06-26 09:30\tStandup").expect("event");

    assert_eq!(formatted(&event.start, "%Y-%m-%d %H:%M"), "2026-06-26 09:00");
    assert_eq!(
        formatted(&event.end.expect("end"), "%Y-%m-%d %H:%M"),
        "2026-06-26 09:30"
    );
    assert_eq!(event.title, "Standup");
}

#[test]
fn parses_five_column_tsv_event() {
    let event =
        parse_calendar_event("2026-06-26\t09:00\t2026-06-26\t09:30\tPlanning").expect("event");

    assert_eq!(formatted(&event.start, "%Y-%m-%d %H:%M"), "2026-06-26 09:00");
    assert_eq!(event.title, "Planning");
}

#[test]
fn parses_gws_calendar_event() {
    let value = JsonValue::parse(
        br#"{
            "summary": "Review",
            "start": { "dateTime": "2026-06-26T10:00:00+09:00" },
            "end": { "dateTime": "2026-06-26T10:30:00+09:00" },
            "attendees": [
                {
                    "displayName": "Focus Room",
                    "email": "focus-room@example.com",
                    "resource": true
                }
            ]
        }"#,
    )
    .expect("json");
    let event = parse_calendar_api_event(&value).expect("event");

    // The expected wall-clock time is the one a clock on UTC+09:00 shows.
    assert_eq!(in_utc_plus_nine(&event.start, "%Y-%m-%d %H:%M"), "2026-06-26 10:00");
    // The calendar fields shown are those of that instant at the local offset.
    let shown = chrono::FixedOffset::east_opt(event.start.offset)
        .unwrap()
        .timestamp_opt(event.start.secs, event.start.nanos)
        .unwrap();
    assert_eq!(formatted(&event.start, "%Y-%m-%d %H:%M:%S"), shown.format("%Y-%m-%d %H:%M:%S").to_string());
    assert_eq!(event.title, "Review");
    assert_eq!(event.room.as_deref(), Some("Focus Room"));
    assert_eq!(event.display_title(), "Review (Focus Room)");
}

#[test]
fn centers_wide_schedule_text_by_terminal_width() {
    assert_eq!(display_width("일정"), 4);
    assert_eq!(centered_x("일정", 20), 8);
}

#[test]
fn dismisses_active_alert() {
    let mut alert = AlertState::new();
    alert.update(
        &some_moment(),
        Some(AlertCandidate {
            event_id: "event-1".to_string(),
            title: "Demo".to_string(),
            kind: AlertKind::TenMinutes,
        }),
    );

    assert!(alert.is_active());
    assert!(alert.dismiss());
    assert!(!alert.is_active());
}
