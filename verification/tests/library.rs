use chrono::{Datelike, TimeZone, Timelike};
use timecat::alert::{AlertCandidate, AlertKind, AlertState, TermColor};
use timecat::calendar::{
    fetch_calendar_events, parse_tsv_calendar_output, spawn_failure, CalendarState,
    CalendarStatus,
};
use timecat::control::{
    cli_request, frame_key, handle_event, CliRequest, InputAction, InputEvent, KeyInput,
    RedrawState,
};
use timecat::digits::{append_gap, append_pattern, base_clock_width, render_digits, scale_rows};
use timecat::events::{parse_calendar_event, parse_calendar_event_parts, sort_by_start, CalendarEvent};
use timecat::frame::{
    add_fragment, compose_frame, draw_clock, draw_frame, kitty_scaled, DrawCommand, TextFragment,
};
use timecat::json::{
    calendar_id, gws_params, gws_request_args, parse_calendar_api_event, parse_calendar_api_event_time,
    parse_calendar_api_room, parse_gws_output, JsonValue,
};
use timecat::layout::{
    clock_layout, clock_scale, compact_schedule_y, schedule_block_height, schedule_gap,
    schedule_text_scale, usable_content_height,
};
use timecat::text::{chars_of, lines_chars, split_chars, trim_str};
use timecat::time::{first_reading, parse_local_datetime, seconds_until, LocalDateTime};
use timecat::width::{centered_x_scaled, display_width, truncate_to_width};

const NINE_AM: i64 = 1_782_464_400;

fn at(offset_secs: i64) -> LocalDateTime {
    let secs = NINE_AM + offset_secs;
    let of_day = 9 * 3600 + offset_secs;
    LocalDateTime {
        secs,
        nanos: 0,
        offset: 0,
        year: 2026,
        month: 6,
        day: 26,
        hour: (of_day / 3600) as u32,
        minute: ((of_day / 60) % 60) as u32,
        second: (of_day % 60) as u32,
    }
}

fn event(start: i64, end: Option<i64>, title: &str, room: Option<&str>) -> CalendarEvent {
    CalendarEvent {
        start: at(start),
        end: end.map(at),
        title: title.to_string(),
        room: room.map(|r| r.to_string()),
    }
}

fn candidate(id: &str, kind: AlertKind) -> AlertCandidate {
    AlertCandidate { event_id: id.to_string(), title: "Demo".to_string(), kind }
}

fn texts(v: &[String]) -> Vec<&str> {
    v.iter().map(|s| s.as_str()).collect()
}

fn char_vecs(v: &[Vec<char>]) -> Vec<String> {
    v.iter().map(|c| c.iter().collect()).collect()
}

#[test]
fn trims_unicode_white_space() {
    assert_eq!(trim_str(" \t a b \u{3000}\n"), "a b");
    assert_eq!(trim_str("   "), "");
}

#[test]
fn splits_fields_and_lines_like_std() {
    let fields = split_chars(&chars_of("a\t\tb"), '\t');
    assert_eq!(char_vecs(&fields), vec!["a", "", "b"]);
    let lines = lines_chars(&chars_of("a\r\nb\n\nc\r"));
    assert_eq!(char_vecs(&lines), vec!["a", "b", "", "c\r"]);
    assert!(lines_chars(&chars_of("")).is_empty());
    assert_eq!(char_vecs(&lines_chars(&chars_of("x\n"))), vec!["x"]);
}

#[test]
fn truncates_to_width_with_ellipsis() {
    assert_eq!(truncate_to_width("Hello", 5), "Hello");
    assert_eq!(truncate_to_width("Hello world", 8), "Hello...");
    assert_eq!(truncate_to_width("Hello world", 2), "");
    assert_eq!(truncate_to_width("Hello world", 3), "...");
    assert_eq!(truncate_to_width("일정일정", 6), "일...");
}

#[test]
fn measures_and_centers_by_columns() {
    assert_eq!(display_width("abc"), 3);
    assert_eq!(display_width("日本"), 4);
    assert_eq!(centered_x_scaled("abc", 20, 2), 7);
    assert_eq!(centered_x_scaled("abcdefghijkl", 10, 1), 0);
}

#[test]
fn base_width_counts_glyphs_and_gaps() {
    assert_eq!(base_clock_width("12:34:56"), 39);
    assert_eq!(base_clock_width(""), 0);
    assert_eq!(base_clock_width(":"), 1);
}

#[test]
fn renders_one_digit() {
    let rows = render_digits("1", 1);
    assert_eq!(
        texts(&rows),
        vec!["  █  ", " ██  ", "  █  ", "  █  ", "  █  ", "  █  ", "█████"]
    );
}

#[test]
fn renders_scaled_rows_of_equal_width() {
    let rows = render_digits("0:", 2);
    assert_eq!(rows.len(), 14);
    for row in &rows {
        assert_eq!(row.chars().count(), 2 * base_clock_width("0:"));
    }
    assert_eq!(rows[0], "██████████    ");
    assert_eq!(rows[2], "██      ██  ██");
    assert_eq!(rows[1], rows[0]);
}

#[test]
fn appends_patterns_gaps_and_scales() {
    let mut rows = vec![String::new(); 7];
    append_pattern(&mut rows, 10, 1);
    append_gap(&mut rows, 2);
    assert_eq!(rows[0], "   ");
    assert_eq!(rows[1], "█  ");
    let scaled = scale_rows(vec!["a".to_string(), "b".to_string()], 3);
    assert_eq!(texts(&scaled), vec!["a", "a", "a", "b", "b", "b"]);
}

#[test]
fn lays_out_schedule_sizes() {
    assert_eq!(schedule_gap(0), 2);
    assert_eq!(schedule_gap(5), 4);
    assert_eq!(schedule_text_scale(5, true), 3);
    assert_eq!(schedule_text_scale(5, false), 1);
    assert_eq!(schedule_text_scale(12, true), 4);
    assert_eq!(schedule_block_height(0, 3, 2), 0);
    assert_eq!(schedule_block_height(2, 3, 2), 8);
}

#[test]
fn reserves_rows_for_the_alert() {
    let mut alert = AlertState::new();
    assert_eq!(usable_content_height(24, &alert), 23);
    assert_eq!(compact_schedule_y(2, 24, &alert), 21);
    alert.update(&at(0), Some(candidate("e", AlertKind::Starting)));
    assert_eq!(usable_content_height(24, &alert), 21);
    assert_eq!(compact_schedule_y(2, 24, &alert), 19);
    assert_eq!(usable_content_height(2, &alert), 0);
}

#[test]
fn picks_largest_clock_scale_that_fits() {
    let alert = AlertState::new();
    assert_eq!(clock_scale("12:34:56", 80, 24, 2, &alert, false), 1);
    assert_eq!(clock_scale("12:34:56", 200, 60, 2, &alert, false), 5);
    assert_eq!(clock_scale("12:34:56", 10, 5, 0, &alert, false), 1);
}

#[test]
fn centers_the_clock_and_schedule() {
    let alert = AlertState::new();
    let layout = clock_layout(39, 7, 1, 2, 80, 24, &alert, false).expect("layout");
    assert_eq!(layout.digit_x, 20);
    assert_eq!(layout.digit_y, 6);
    assert_eq!(layout.schedule_y, 15);
    assert_eq!(layout.schedule_text_scale, 1);
    assert!(clock_layout(81, 7, 1, 0, 80, 24, &alert, false).is_none());
    assert!(clock_layout(39, 30, 1, 0, 80, 24, &alert, false).is_none());
}

#[test]
fn parses_rfc3339_to_the_instant() {
    let t = parse_local_datetime("2026-06-26T10:00:00+09:00").expect("time");
    assert_eq!(t.secs, 1_782_435_600);
    assert_eq!(t.nanos, 0);
}

#[test]
fn parses_other_local_layouts() {
    let t = parse_local_datetime("06/26/2026 09:15").expect("time");
    assert_eq!((t.year, t.month, t.day, t.hour, t.minute, t.second), (2026, 6, 26, 9, 15, 0));
    let t = parse_local_datetime("2026/06/26 23:59:30").expect("time");
    assert_eq!((t.hour, t.minute, t.second), (23, 59, 30));
    assert!(parse_local_datetime("tomorrow").is_none());
}

#[test]
fn counts_whole_seconds_toward_zero() {
    let mut later = at(10);
    later.nanos = 900_000_000;
    assert_eq!(seconds_until(&later, &at(0)), 10);
    assert_eq!(seconds_until(&at(0), &later), -10);
    assert_eq!(seconds_until(&at(-600), &at(0)), -600);
}

#[test]
fn formats_clock_times() {
    assert_eq!(at(65).format_hm(), "09:01");
    assert_eq!(at(65).format_hms(), "09:01:05");
    assert_eq!(at(4 * 3600).format_hm(), "13:00");
}

#[test]
fn names_and_titles_events() {
    let e = event(0, Some(1800), "Standup", None);
    assert_eq!(e.id(), "1782464400:Standup");
    assert_eq!(e.display_title(), "Standup");
    assert_eq!(e.time_range(), "09:00-09:30");
    let e = event(0, None, "Retro", Some("Focus Room"));
    assert_eq!(e.display_title(), "Retro (Focus Room)");
    assert_eq!(e.time_range(), "09:00");
    let e = event(0, None, "Retro", Some(""));
    assert_eq!(e.display_title(), "Retro");
    let mut e = event(0, None, "Early", None);
    e.start.secs = -5;
    assert_eq!(e.id(), "-5:Early");
}

#[test]
fn parses_two_column_and_rejects_bad_lines() {
    let e = parse_calendar_event("2026-06-26 09:00\t Lunch ").expect("event");
    assert!(e.end.is_none());
    assert_eq!(e.title, "Lunch");
    assert!(e.room.is_none());
    assert!(parse_calendar_event("2026-06-26 09:00").is_none());
    assert!(parse_calendar_event("2026-06-26 09:00\t   ").is_none());
    assert!(parse_calendar_event("soon\tLunch").is_none());
    let e = parse_calendar_event("2026-06-26\t09:00\t2026-06-26\t09:30\tA\tB").expect("event");
    assert_eq!(e.title, "A B");
    let e = parse_calendar_event("2026-06-26 09:00\tnever\tTitle\tMore").expect("event");
    assert!(e.end.is_none());
    assert_eq!(e.title, "Title More");
    assert!(parse_calendar_event_parts("2026-06-26 09:00", None, "").is_none());
}

#[test]
fn sorts_events_by_start_keeping_ties_in_order() {
    let sorted = sort_by_start(vec![
        event(600, None, "c", None),
        event(0, None, "a", None),
        event(600, None, "d", None),
        event(0, None, "b", None),
    ]);
    let titles: Vec<&str> = sorted.iter().map(|e| e.title.as_str()).collect();
    assert_eq!(titles, vec!["a", "b", "c", "d"]);
}

#[test]
fn renders_current_and_next_events() {
    let mut calendar = CalendarState::new();
    calendar.apply_fetch(Ok(vec![
        event(-600, Some(1200), "Standup", None),
        event(3600, Some(5400), "Retro", Some("Room 4")),
    ]));
    let lines = calendar.render_lines(&at(0), 80);
    assert_eq!(texts(&lines), vec!["now  08:50-09:20  Standup", "next 10:00  Retro (Room 4)"]);
    assert_eq!(
        calendar.render_key(&at(0)),
        "now  08:50-09:20  Standup\nnext 10:00  Retro (Room 4)"
    );
    assert!(calendar.render_lines(&at(0), 11).is_empty());
    let cut = calendar.render_lines(&at(0), 20);
    assert_eq!(texts(&cut), vec!["now  08:50-09:20 ...", "next 10:00  Retro..."]);
}

#[test]
fn renders_status_when_nothing_to_show() {
    let mut calendar = CalendarState::new();
    assert_eq!(
        texts(&calendar.render_lines(&at(0), 80)),
        vec!["calendar: configure gws, gcalcli, or TIMECAT_CALENDAR_CMD"]
    );
    calendar.apply_fetch(Ok(vec![]));
    assert_eq!(texts(&calendar.render_lines(&at(0), 80)), vec!["no upcoming calendar events"]);
    calendar.apply_fetch(Err(CalendarStatus::Error("boom".to_string())));
    assert_eq!(texts(&calendar.render_lines(&at(0), 80)), vec!["calendar: boom"]);
    assert_eq!(calendar.render_key(&at(0)), "calendar: boom");
}

#[test]
fn raises_alerts_ten_minutes_before_and_at_start() {
    let mut calendar = CalendarState::new();
    calendar.apply_fetch(Ok(vec![event(300, None, "Soon", None)]));
    let c = calendar.alert_candidate(&at(0)).expect("alert");
    assert_eq!(c.kind, AlertKind::TenMinutes);
    assert_eq!(c.event_id, "1782464700:Soon");
    assert_eq!(c.title, "Soon");
    let c = calendar.alert_candidate(&at(330)).expect("alert");
    assert_eq!(c.kind, AlertKind::Starting);
    assert!(calendar.alert_candidate(&at(300 + 60)).is_none());
    assert!(calendar.alert_candidate(&at(300 - 601)).is_none());
    let c = calendar.alert_candidate(&at(300 - 600)).expect("alert");
    assert_eq!(c.kind, AlertKind::TenMinutes);
}

#[test]
fn reads_command_output() {
    let failed = parse_tsv_calendar_output(false, "", "auth expired\nmore", &at(0));
    assert!(matches!(failed, Err(CalendarStatus::Error(m)) if m == "auth expired"));
    let failed = parse_tsv_calendar_output(false, "", "", &at(0));
    assert!(matches!(failed, Err(CalendarStatus::Error(m)) if m == "calendar command failed"));
    let out = "2026-06-26 11:00\t2026-06-26 12:00\tLate\n\
               2026-06-26 01:00\t2026-06-26 02:00\tPast\n\
               not an event\n\
               2026-06-26 10:00\tEarly\r\n";
    let now = parse_local_datetime("2026-06-26 05:00").expect("now");
    let events = parse_tsv_calendar_output(true, out, "", &now).expect("events");
    let titles: Vec<&str> = events.iter().map(|e| e.title.as_str()).collect();
    assert_eq!(titles, vec!["Early", "Late"]);
}

#[test]
fn refreshes_only_when_due() {
    let mut calendar = CalendarState::new();
    let mut calls = 0;
    calendar.refresh_if_due(|| {
        calls += 1;
        Ok(vec![event(3600, None, "Next", None)])
    });
    calendar.refresh_if_due(|| {
        calls += 1;
        Err(CalendarStatus::Disabled)
    });
    assert_eq!(calls, 1);
    assert_eq!(texts(&calendar.render_lines(&at(0), 80)), vec!["next 10:00  Next"]);
}

#[test]
fn chooses_the_calendar_source() {
    let r = fetch_calendar_events(
        Some("my-script".to_string()),
        |c| Err(CalendarStatus::Error(c)),
        || Err(CalendarStatus::Error("gws".to_string())),
        || Err(CalendarStatus::Error("gcalcli".to_string())),
    );
    assert!(matches!(r, Err(CalendarStatus::Error(m)) if m == "my-script"));
    let r = fetch_calendar_events(
        Some(String::new()),
        |c| Err(CalendarStatus::Error(c)),
        || Err(CalendarStatus::Error("gws".to_string())),
        || Err(CalendarStatus::Error("gcalcli".to_string())),
    );
    assert!(matches!(r, Err(CalendarStatus::Error(m)) if m == "gws"));
    let r = fetch_calendar_events(
        None,
        |c| Err(CalendarStatus::Error(c)),
        || Err(CalendarStatus::Disabled),
        || Err(CalendarStatus::Error("gcalcli".to_string())),
    );
    assert!(matches!(r, Err(CalendarStatus::Error(m)) if m == "gcalcli"));
    assert!(matches!(spawn_failure(true, "x".to_string()), CalendarStatus::Disabled));
    assert!(matches!(spawn_failure(false, "x".to_string()), CalendarStatus::Error(m) if m == "x"));
}

#[test]
fn builds_gws_request_parameters() {
    assert_eq!(
        gws_params("primary", "A", "B"),
        r#"{"calendarId":"primary","maxResults":20,"orderBy":"startTime","singleEvents":true,"timeMax":"B","timeMin":"A"}"#
    );
    assert_eq!(
        gws_params("a\"b", "2026-06-26T09:00:00+00:00", "x"),
        r#"{"calendarId":"a\"b","maxResults":20,"orderBy":"startTime","singleEvents":true,"timeMax":"x","timeMin":"2026-06-26T09:00:00+00:00"}"#
    );
    assert_eq!(calendar_id(Some("work"), Some("home")), "work");
    assert_eq!(calendar_id(None, Some("home")), "home");
    assert_eq!(calendar_id(None, None), "primary");
}

#[test]
fn reads_rooms_and_times_from_api_events() {
    let v = JsonValue::parse(
        br#"{"attendees":[{"displayName":"Ann","resource":false},{"email":" room@x ","resource":true}],"location":"Hall"}"#,
    )
    .expect("json");
    assert_eq!(parse_calendar_api_room(&v).as_deref(), Some("room@x"));
    let v = JsonValue::parse(br#"{"attendees":[{"displayName":7,"email":"e","resource":true}],"location":"Hall"}"#)
        .expect("json");
    assert_eq!(parse_calendar_api_room(&v).as_deref(), Some("Hall"));
    let v = JsonValue::parse(br#"{"location":"   "}"#).expect("json");
    assert_eq!(parse_calendar_api_room(&v), None);
    let v = JsonValue::parse(br#"{"date":"2026-06-26"}"#).expect("json");
    let t = parse_calendar_api_event_time(&v).expect("time");
    assert_eq!((t.year, t.month, t.day, t.hour, t.minute), (2026, 6, 26, 0, 0));
    let v = JsonValue::parse(br#"{"start":{"date":"2026-06-26"}}"#).expect("json");
    let e = parse_calendar_api_event(&v).expect("event");
    assert_eq!(e.title, "(untitled)");
    assert!(e.end.is_none());
    let v = JsonValue::parse(br#"{"summary":"x"}"#).expect("json");
    assert!(parse_calendar_api_event(&v).is_none());
}

#[test]
fn reads_gws_output() {
    let failed = parse_gws_output(false, b"", "", &at(0));
    assert!(matches!(failed, Err(CalendarStatus::Error(m)) if m == "gws calendar command failed"));
    let bad = parse_gws_output(true, b"not json", "", &at(0));
    assert!(matches!(bad, Err(CalendarStatus::Error(m)) if m.contains("expected")));
    let now = parse_local_datetime("2026-06-26T05:00:00+00:00").expect("now");
    let body = br#"{"items":[
        {"summary":"Later","start":{"dateTime":"2026-06-26T11:00:00+00:00"}},
        {"summary":"Gone","start":{"dateTime":"2026-06-26T01:00:00+00:00"},"end":{"dateTime":"2026-06-26T02:00:00+00:00"}},
        {"summary":"Sooner","start":{"dateTime":"2026-06-26T06:00:00+00:00"}}
    ]}"#;
    let events = parse_gws_output(true, body, "", &now).expect("events");
    let titles: Vec<&str> = events.iter().map(|e| e.title.as_str()).collect();
    assert_eq!(titles, vec!["Sooner", "Later"]);
    assert!(parse_gws_output(true, b"{}", "", &now).expect("events").is_empty());
}

#[test]
fn adds_fragments_only_inside_the_frame() {
    let mut frame: Vec<Vec<TextFragment>> = vec![Vec::new(), Vec::new()];
    add_fragment(&mut frame, 5, 0, "x".to_string(), 1, TermColor::White, None);
    add_fragment(&mut frame, 1, 0, "".to_string(), 0, TermColor::White, None);
    assert!(frame.iter().all(|row| row.is_empty()));
    add_fragment(&mut frame, 1, 3, "ab".to_string(), 2, TermColor::Grey, None);
    assert_eq!(frame[1].len(), 1);
    assert_eq!(frame[1][0].text, "ab");
}

fn printed(commands: &[DrawCommand]) -> Vec<String> {
    commands
        .iter()
        .map(|c| match c {
            DrawCommand::MoveTo(x, y) => format!("move {x},{y}"),
            DrawCommand::Foreground(c) => format!("fg {c:?}"),
            DrawCommand::Background(c) => format!("bg {c:?}"),
            DrawCommand::Print(s) => format!("print [{s}]"),
            DrawCommand::ResetColor => "reset".to_string(),
        })
        .collect()
}

#[test]
fn draws_fragments_left_to_right_with_padding() {
    let mut frame: Vec<Vec<TextFragment>> = vec![Vec::new()];
    add_fragment(&mut frame, 0, 6, "cd".to_string(), 2, TermColor::Grey, None);
    add_fragment(&mut frame, 0, 1, "ab".to_string(), 2, TermColor::Black, Some(TermColor::Yellow));
    add_fragment(&mut frame, 0, 12, "zz".to_string(), 2, TermColor::Grey, None);
    let commands = draw_frame(&frame, 10, TermColor::Black, TermColor::White);
    assert_eq!(
        printed(&commands),
        vec![
            "move 0,0", "fg White", "bg Black",
            "print [ ]", "fg Black", "bg Yellow", "print [ab]", "fg White", "bg Black",
            "print [   ]", "fg Grey", "bg Black", "print [cd]", "fg White", "bg Black",
            "print [  ]",
            "reset",
        ]
    );
}

#[test]
fn wraps_kitty_scaled_text() {
    assert_eq!(kitty_scaled("12:00", 3), "\x1b]66;s=3;12:00\x07");
}

#[test]
fn composes_plain_time_when_clock_does_not_fit() {
    let alert = AlertState::new();
    let lines = vec!["next 10:00  Retro".to_string()];
    let frame = compose_frame("12:34:56", 20, 10, &lines, &alert, TermColor::White, false);
    assert_eq!(frame.len(), 10);
    assert_eq!(frame[5].len(), 1);
    assert_eq!(frame[5][0].text, "12:34:56");
    assert_eq!(frame[5][0].x, 6);
    assert_eq!(frame[8].len(), 1);
    assert_eq!(frame[8][0].text, "next 10:00  Retro");
    let kitty = compose_frame("12:34:56", 20, 10, &lines, &alert, TermColor::White, true);
    assert_eq!(kitty[4][0].text, "\x1b]66;s=2;12:34:56\x07");
    assert_eq!(kitty[4][0].cell_width, 16);
    assert_eq!(kitty[4][0].x, 2);
}

#[test]
fn composes_big_clock_with_alert_message() {
    let mut alert = AlertState::new();
    alert.update(&at(0), Some(candidate("e", AlertKind::Starting)));
    let lines = vec!["now  09:00  Demo".to_string()];
    let frame = compose_frame("12:34", 80, 30, &lines, &alert, TermColor::Red, false);
    assert_eq!(frame.len(), 30);
    let message = &frame[28];
    assert_eq!(message.len(), 1);
    assert_eq!(message[0].text, "now: Demo  (Esc/click to dismiss)");
    assert_eq!(message[0].background, Some(TermColor::Yellow));
    let digit_rows: Vec<usize> = (0..30).filter(|&y| frame[y].iter().any(|f| f.foreground == TermColor::Red)).collect();
    assert_eq!(digit_rows.len() % 7, 0);
}

#[test]
fn draws_the_clock_screen() {
    let calendar = CalendarState::new();
    let alert = AlertState::new();
    let commands = draw_clock("12:34:56", 100, 30, &calendar, &alert, &at(0), false);
    let text = printed(&commands);
    assert_eq!(text[0], "move 0,0");
    assert_eq!(text[1], "fg White");
    assert_eq!(text[2], "bg Black");
    assert_eq!(text.last().map(|s| s.as_str()), Some("reset"));
    assert_eq!(text.iter().filter(|s| s.starts_with("move")).count(), 30);
}

#[test]
fn handles_keys_and_clicks() {
    let mut alert = AlertState::new();
    let esc = InputEvent::Key { code: KeyInput::Esc, control: false };
    assert_eq!(handle_event(esc, &mut alert), InputAction::Quit);
    alert.update(&at(0), Some(candidate("e", AlertKind::TenMinutes)));
    assert_eq!(handle_event(esc, &mut alert), InputAction::Dismissed);
    assert!(!alert.is_active());
    alert.update(&at(0), Some(candidate("f", AlertKind::TenMinutes)));
    assert_eq!(handle_event(InputEvent::Mouse, &mut alert), InputAction::Dismissed);
    assert_eq!(handle_event(InputEvent::Mouse, &mut alert), InputAction::Ignored);
    let q = InputEvent::Key { code: KeyInput::Char('q'), control: false };
    assert_eq!(handle_event(q, &mut alert), InputAction::Quit);
    let c = InputEvent::Key { code: KeyInput::Char('c'), control: true };
    assert_eq!(handle_event(c, &mut alert), InputAction::Quit);
    let plain_c = InputEvent::Key { code: KeyInput::Char('c'), control: false };
    assert_eq!(handle_event(plain_c, &mut alert), InputAction::Ignored);
    assert_eq!(handle_event(InputEvent::Other, &mut alert), InputAction::Ignored);
}

#[test]
fn reads_command_line_requests() {
    assert_eq!(cli_request(None), CliRequest::Run);
    assert_eq!(cli_request(Some("-h")), CliRequest::Help);
    assert_eq!(cli_request(Some("--help")), CliRequest::Help);
    assert_eq!(cli_request(Some("-V")), CliRequest::Version);
    assert_eq!(cli_request(Some("--version")), CliRequest::Version);
    assert_eq!(cli_request(Some("-x")), CliRequest::Run);
}

#[test]
fn redraws_only_on_change() {
    assert_eq!(frame_key("12:00:00", "cal", "al"), "12:00:00|cal|al");
    let mut redraw = RedrawState::new();
    assert!(redraw.needs_redraw("k".to_string(), (80, 24)));
    assert!(!redraw.needs_redraw("k".to_string(), (80, 24)));
    assert!(redraw.needs_redraw("k".to_string(), (81, 24)));
    assert!(redraw.needs_redraw("j".to_string(), (81, 24)));
    redraw.invalidate();
    assert!(redraw.needs_redraw("j".to_string(), (81, 24)));
}

#[test]
fn remembers_dismissed_events() {
    let mut alert = AlertState::new();
    alert.update(&at(0), Some(candidate("e", AlertKind::TenMinutes)));
    assert_eq!(alert.message().as_deref(), Some("10 min: Demo  (Esc/click to dismiss)"));
    assert!(alert.dismiss());
    assert!(!alert.dismiss());
    alert.update(&at(0), Some(candidate("e", AlertKind::Starting)));
    assert!(!alert.is_active());
    assert_eq!(alert.message(), None);
    assert_eq!(alert.render_key(), "");
    alert.update(&at(0), Some(candidate("f", AlertKind::Starting)));
    assert!(alert.is_active());
    alert.update(&at(0), None);
    assert!(!alert.is_active());
}

#[test]
fn flashes_through_the_palettes() {
    let mut alert = AlertState::new();
    assert_eq!(alert.foreground_at(3), TermColor::White);
    assert_eq!(alert.background_at(3), TermColor::Black);
    assert_eq!(alert.foreground_color(), TermColor::White);
    alert.update(&at(0), Some(candidate("e", AlertKind::Starting)));
    assert_eq!(alert.foreground_at(0), TermColor::Yellow);
    assert_eq!(alert.foreground_at(7), TermColor::Cyan);
    assert_eq!(alert.foreground_at(5), TermColor::Red);
    assert_eq!(alert.background_at(1), TermColor::DarkBlue);
    assert_eq!(alert.background_at(6), TermColor::DarkMagenta);
    assert_eq!(alert.background_at(3), TermColor::DarkRed);
    assert_eq!(AlertState::phase_after(439), 1);
    assert_eq!(AlertState::phase_after(440), 2);
    assert_eq!(alert.render_key_at(12), "12:now: Demo  (Esc/click to dismiss)");
    assert!(alert.render_key().ends_with(":now: Demo  (Esc/click to dismiss)"));
}

#[test]
fn renders_every_glyph_as_drawn() {
    let glyphs: [[&str; 7]; 11] = [
        ["#####", "#   #", "#   #", "#   #", "#   #", "#   #", "#####"],
        ["  #  ", " ##  ", "  #  ", "  #  ", "  #  ", "  #  ", "#####"],
        ["#####", "    #", "    #", "#####", "#    ", "#    ", "#####"],
        ["#####", "    #", "    #", "#####", "    #", "    #", "#####"],
        ["#   #", "#   #", "#   #", "#####", "    #", "    #", "    #"],
        ["#####", "#    ", "#    ", "#####", "    #", "    #", "#####"],
        ["#####", "#    ", "#    ", "#####", "#   #", "#   #", "#####"],
        ["#####", "    #", "    #", "   # ", "  #  ", " #   ", "#    "],
        ["#####", "#   #", "#   #", "#####", "#   #", "#   #", "#####"],
        ["#####", "#   #", "#   #", "#####", "    #", "    #", "#####"],
        [" ", "#", "#", " ", "#", "#", " "],
    ];
    for (index, ch) in "0123456789:".chars().enumerate() {
        let rows = render_digits(&ch.to_string(), 1);
        for row in 0..7 {
            assert_eq!(rows[row], glyphs[index][row].replace('#', "█"));
        }
    }
    let rows = render_digits("1a2", 1);
    assert_eq!(rows[0], "  █    █████");
}

#[test]
fn builds_the_gws_request_for_the_next_day() {
    let request = gws_request_args(&at(0), None, Some("home")).expect("request");
    assert_eq!(texts(&request.args)[..4], ["calendar", "events", "list", "--params"]);
    let params: serde_json::Value = serde_json::from_str(&request.args[4]).expect("json");
    assert_eq!(params["calendarId"], "home");
    assert_eq!(params["maxResults"], 20);
    assert_eq!(params["orderBy"], "startTime");
    assert_eq!(params["singleEvents"], true);
    let time_min = chrono::DateTime::parse_from_rfc3339(params["timeMin"].as_str().unwrap())
        .expect("timeMin");
    let time_max = chrono::DateTime::parse_from_rfc3339(params["timeMax"].as_str().unwrap())
        .expect("timeMax");
    assert_eq!(time_min.timestamp(), NINE_AM);
    assert_eq!(time_max.timestamp(), NINE_AM + 86_400);
    assert_eq!(time_min.offset().local_minus_utc(), request.time_min_offset);
    assert_eq!(time_max.offset().local_minus_utc(), request.time_max_offset);
    let primary = gws_request_args(&at(0), None, None).expect("request");
    assert!(primary.args[4].starts_with(r#"{"calendarId":"primary","#));
}

#[test]
fn restarts_the_flash_at_the_given_moment() {
    let now = std::time::Instant::now();
    let past = now.checked_sub(std::time::Duration::from_secs(10)).expect("past");
    let future = now + std::time::Duration::from_secs(3600);
    let mut alert = AlertState::new();
    alert.update_at(Some(candidate("e", AlertKind::TenMinutes)), past);
    assert!(alert.flash_phase() >= 45);
    alert.update_at(Some(candidate("e", AlertKind::TenMinutes)), future);
    assert!(alert.flash_phase() >= 45);
    alert.update_at(Some(candidate("e", AlertKind::Starting)), future);
    assert_eq!(alert.flash_phase(), 0);
    assert_eq!(alert.message().as_deref(), Some("now: Demo  (Esc/click to dismiss)"));
    alert.update_at(Some(candidate("f", AlertKind::Starting)), past);
    assert!(alert.flash_phase() >= 45);
}

#[test]
fn cut_text_fits_its_width() {
    for width in 3..20 {
        let cut = truncate_to_width("Planning meeting with the whole team", width);
        assert!(display_width(&cut) <= width);
        let wide = truncate_to_width("일정일정일정일정", width);
        assert!(display_width(&wide) <= width);
    }
    let mut calendar = CalendarState::new();
    calendar.apply_fetch(Ok(vec![event(-600, Some(1800), "A very long meeting title indeed", None)]));
    for width in 12..40 {
        let lines = calendar.render_lines(&at(0), width);
        assert!(!lines.is_empty());
        assert!(lines.iter().all(|line| display_width(line) <= width));
    }
}

#[test]
fn reads_layouts_as_the_instant_their_fields_name() {
    let t = parse_local_datetime("2026-06-26 09:00").expect("time");
    assert_eq!((t.year, t.month, t.day, t.hour, t.minute, t.second), (2026, 6, 26, 9, 0, 0));
    assert_eq!(t.nanos, 0);
    assert_eq!(t.secs + t.offset as i64, NINE_AM);
    let r = parse_local_datetime("2026-06-26T10:00:00+09:00").expect("time");
    let shown = chrono::FixedOffset::east_opt(r.offset)
        .unwrap()
        .timestamp_opt(r.secs, r.nanos)
        .unwrap();
    assert_eq!((r.year, r.month, r.day, r.hour), (shown.year(), shown.month(), shown.day(), shown.hour()));
    assert!(parse_local_datetime("tomorrow").is_none());
}

#[test]
fn takes_the_first_reading_present() {
    assert!(first_reading(&vec![None, None]).is_none());
    let picked = first_reading(&vec![None, Some(at(60)), Some(at(120))]).expect("reading");
    assert_eq!(picked.secs, NINE_AM + 60);
    assert!(first_reading(&Vec::new()).is_none());
}
