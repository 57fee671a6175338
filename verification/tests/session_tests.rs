use focus_timer::daily_file::{parse_session_line, DailySessionFile};
use focus_timer::session::{DailySummary, Session, SessionStatus, SessionType};
use focus_timer::time::{Date, LocalDateTime};

fn fixed_date() -> Date {
    Date::from_ymd(2024, 6, 15).unwrap()
}

fn create_test_session(
    hour: u32,
    minute: u32,
    duration_minutes: u32,
    status: SessionStatus,
) -> Session {
    let date = fixed_date();
    let start = LocalDateTime::from_date_hm(date, hour, minute);
    let end_total = hour * 60 + minute + duration_minutes;
    let end = LocalDateTime::from_date_hm(date, end_total / 60, end_total % 60);

    Session::new(start, end, status, SessionType::Focus)
}

#[test]
fn test_session_to_markdown_line() {
    let session = create_test_session(9, 15, 25, SessionStatus::Complete);
    let line = session.to_markdown_line();

    assert!(line.contains("09:15"));
    assert!(line.contains("\u{2713}"));
    assert!(line.contains("Complete"));
    assert!(line.contains("25m"));
}

#[test]
fn test_session_to_markdown_line_interrupted() {
    let session = create_test_session(10, 0, 14, SessionStatus::Interrupted);
    let line = session.to_markdown_line();

    assert!(line.contains("10:00"));
    assert!(line.contains("\u{25cb}"));
    assert!(line.contains("Interrupted"));
    assert!(line.contains("14m"));
}

#[test]
fn test_daily_summary_from_sessions() {
    let sessions = vec![
        create_test_session(9, 0, 25, SessionStatus::Complete),
        create_test_session(10, 0, 25, SessionStatus::Complete),
        create_test_session(11, 0, 14, SessionStatus::Interrupted),
    ];

    let summary = DailySummary::from_sessions(&sessions);

    assert_eq!(summary.complete_count, 2);
    assert_eq!(summary.complete_minutes, 50);
    assert_eq!(summary.partial_count, 1);
    assert_eq!(summary.partial_minutes, 14);
    assert_eq!(summary.total_focus_minutes, 64);
}

#[test]
fn test_daily_summary_to_markdown() {
    let summary = DailySummary {
        complete_count: 2,
        complete_minutes: 50,
        partial_count: 1,
        partial_minutes: 14,
        total_focus_minutes: 64,
    };

    let md = summary.to_markdown();

    assert!(md.contains("Complete: 2 sessions (50m)"));
    assert!(md.contains("Partial: 1 session (14m)"));
    assert!(md.contains("Total focus: 64m"));
}

#[test]
fn test_daily_file_to_markdown() {
    let today = fixed_date();
    let mut daily_file = DailySessionFile::new(today);

    daily_file.add_session(create_test_session(9, 15, 25, SessionStatus::Complete));
    daily_file.add_session(create_test_session(10, 2, 14, SessionStatus::Interrupted));

    let md = daily_file.to_markdown();

    assert!(md.contains("# 2024-06-15"));
    assert!(md.contains("## Sessions"));
    assert!(md.contains("09:15"));
    assert!(md.contains("\u{2713} Complete"));
    assert!(md.contains("\u{25cb} Interrupted"));
    assert!(md.contains("## Summary"));
}

#[test]
fn test_parse_session_line() {
    let today = fixed_date();
    let line = "- 09:15 - 09:40 \u{2713} Complete (25m)";

    let session = parse_session_line(line, today).unwrap();

    assert_eq!(session.status, SessionStatus::Complete);
    assert_eq!(session.duration_seconds, 25 * 60);
}

#[test]
fn test_daily_file_round_trip() {
    let today = fixed_date();
    let mut original = DailySessionFile::new(today);

    original.add_session(create_test_session(9, 15, 25, SessionStatus::Complete));
    original.add_session(create_test_session(10, 2, 14, SessionStatus::Interrupted));
    original.add_session(create_test_session(14, 30, 25, SessionStatus::Complete));

    let md = original.to_markdown();
    let parsed = DailySessionFile::from_markdown(&md, today).unwrap();

    assert_eq!(parsed.sessions.len(), 3);
    assert_eq!(parsed.summary.complete_count, 2);
    assert_eq!(parsed.summary.partial_count, 1);
    for (before, after) in original.sessions.iter().zip(parsed.sessions.iter()) {
        assert_eq!(after.status, before.status);
        assert_eq!(after.duration_seconds / 60, before.duration_seconds / 60);
    }
}

#[test]
fn test_empty_daily_file() {
    let today = fixed_date();
    let daily_file = DailySessionFile::new(today);

    let md = daily_file.to_markdown();

    assert!(md.contains("## Sessions"));
    assert!(md.contains("*No sessions recorded*"));
    assert!(md.contains("## Summary"));
    assert!(md.contains("*No focus sessions completed*"));
}

#[test]
fn test_break_sessions_not_counted_in_summary() {
    let today = fixed_date();
    let start = LocalDateTime::from_date_hm(today, 12, 0);
    let end = LocalDateTime::from_date_hm(today, 12, 5);

    let break_session = Session::new(start, end, SessionStatus::Complete, SessionType::Break);

    let mut daily_file = DailySessionFile::new(today);
    daily_file.add_session(break_session);

    assert_eq!(daily_file.summary.complete_count, 0);
    assert_eq!(daily_file.summary.total_focus_minutes, 0);
}

#[test]
fn test_from_markdown_ignores_unrecognized_lines() {
    let today = fixed_date();
    let content = "# 2024-06-15\n\nnoise before the section\n## Sessions\n- 09:15 - 09:40 \u{2713} Complete (25m)\nnot a bullet\n- malformed bullet\n\n## Summary\n- Complete: 1 session (25m)\n";
    let parsed = DailySessionFile::from_markdown(content, today).unwrap();
    assert_eq!(parsed.sessions.len(), 1);
    assert_eq!(parsed.sessions[0].status, SessionStatus::Complete);
}

#[test]
fn test_from_markdown_summary_lines_are_not_sessions() {
    let today = fixed_date();
    let content = "# 2024-06-15\n\n## Sessions\n*No sessions recorded*\n\n## Summary\n- Complete: 2 sessions (50m)\n- Total focus: 50m\n";
    let parsed = DailySessionFile::from_markdown(content, today).unwrap();
    assert_eq!(parsed.sessions.len(), 0);
    assert_eq!(parsed.summary.complete_count, 0);
}

#[test]
fn test_from_markdown_reports_overflowing_totals() {
    let today = fixed_date();
    let mut content = String::from("# 2024-06-15\n\n## Sessions\n");
    for _ in 0..61 {
        content.push_str("- 09:00 - 09:30 \u{2713} Complete (71582788m)\n");
    }
    content.push_str("\n## Summary\n");
    let result = DailySessionFile::from_markdown(&content, today);
    assert!(result.is_err());
}

#[test]
fn test_session_new_clamps_reversed_interval() {
    let date = fixed_date();
    let start = LocalDateTime::from_date_hm(date, 10, 0);
    let end = LocalDateTime::from_date_hm(date, 9, 0);
    let session = Session::new(start, end, SessionStatus::Interrupted, SessionType::Focus);
    assert_eq!(session.duration_seconds, 0);
}

#[test]
fn test_parse_session_line_without_minutes_defaults_to_zero() {
    let today = fixed_date();
    let session = parse_session_line("- 09:15 - 09:40 \u{25cb} Interrupted", today).unwrap();
    assert_eq!(session.status, SessionStatus::Interrupted);
    assert_eq!(session.duration_seconds, 0);
}

#[test]
fn test_parse_session_line_rejects_malformed_times() {
    let today = fixed_date();
    assert!(parse_session_line("- 9:15- 09:40 \u{2713} Complete (25m)", today).is_none());
    assert!(parse_session_line("- short", today).is_none());
    assert!(parse_session_line("no bullet 09:15 - 09:40", today).is_none());
}
