use focus_timer::daily_file::get_session_file_path;
use focus_timer::error::{AppError, TimerError};
use focus_timer::events::make_session_saved_payload;
use focus_timer::session::{DailySummary, Session, SessionStatus, SessionType};
use focus_timer::settings::{get_settings_file_path, Settings};
use focus_timer::stats::{
    get_day_abbreviation, get_quick_stats, get_session_history, get_today_stats,
    get_weekly_stats, sort_sessions_by_start_desc, SessionSummary, TodayStatsResponse,
};
use focus_timer::time::{Date, LocalDateTime};

fn fixed_date() -> Date {
    Date::from_ymd(2024, 6, 15).unwrap()
}

fn session_at(hour: u32, minute: u32, duration_minutes: u32, status: SessionStatus) -> Session {
    let date = fixed_date();
    let start = LocalDateTime::from_date_hm(date, hour, minute);
    let end_total = hour * 60 + minute + duration_minutes;
    let end = LocalDateTime::from_date_hm(date, end_total / 60, end_total % 60);
    Session::new(start, end, status, SessionType::Focus)
}

#[test]
fn test_default_settings() {
    let settings = Settings::default();

    assert_eq!(settings.focus_duration, 1500);
    assert_eq!(settings.break_duration, 300);
    assert!(settings.storage_path.is_none());
    assert!(settings.audio_enabled);
    assert_eq!(settings.character, "cat");
}

#[test]
fn test_quick_and_today_stats_read_the_summary() {
    let summary = DailySummary {
        complete_count: 2,
        complete_minutes: 50,
        partial_count: 1,
        partial_minutes: 14,
        total_focus_minutes: 64,
    };
    let quick = get_quick_stats(&summary);
    assert_eq!(quick.current_streak, 0);
    assert_eq!(quick.today_sessions, 3);
    assert_eq!(quick.today_focus_minutes, 64);

    let today = get_today_stats(&summary);
    assert_eq!(today.completed_count, 2);
    assert_eq!(today.interrupted_count, 1);
    assert_eq!(today.total_focus_minutes, 64);

    let from = TodayStatsResponse::from(summary);
    assert_eq!(from.completed_count, 2);
}

#[test]
fn test_session_summary_renders_times_and_status() {
    let s = session_at(9, 15, 25, SessionStatus::Complete);
    let summary = SessionSummary::from(&s);
    assert_eq!(summary.start_time, "2024-06-15T09:15:00");
    assert_eq!(summary.end_time, "2024-06-15T09:40:00");
    assert_eq!(summary.duration_seconds, 1500);
    assert_eq!(summary.status, "complete");
}

#[test]
fn test_sort_sessions_newest_first() {
    let input = vec![
        session_at(9, 0, 10, SessionStatus::Complete),
        session_at(14, 0, 10, SessionStatus::Complete),
        session_at(11, 0, 10, SessionStatus::Interrupted),
    ];
    let sorted = sort_sessions_by_start_desc(input);
    assert_eq!(sorted.len(), 3);
    assert_eq!(sorted[0].start_time.secs_of_day, 14 * 3600);
    assert_eq!(sorted[1].start_time.secs_of_day, 11 * 3600);
    assert_eq!(sorted[2].start_time.secs_of_day, 9 * 3600);
}

#[test]
fn test_session_history_skips_empty_days_and_sorts() {
    let day1 = fixed_date();
    let day2 = Date::from_ymd(2024, 6, 14).unwrap();
    let input = vec![
        (
            day1,
            vec![
                session_at(9, 0, 25, SessionStatus::Complete),
                session_at(14, 0, 10, SessionStatus::Interrupted),
            ],
        ),
        (day2, vec![]),
    ];
    let history = get_session_history(&input);
    assert!(!history.has_more);
    assert_eq!(history.total_days, 1);
    assert_eq!(history.days.len(), 1);
    let day = &history.days[0];
    assert_eq!(day.date, "2024-06-15");
    assert_eq!(day.total_complete, 1);
    assert_eq!(day.total_interrupted, 1);
    assert_eq!(day.total_minutes, 35);
    assert_eq!(day.sessions.len(), 2);
    assert_eq!(day.sessions[0].start_time, "2024-06-15T14:00:00");
    assert_eq!(day.sessions[1].start_time, "2024-06-15T09:00:00");
}

#[test]
fn test_weekly_stats_totals_and_today_flag() {
    let today = fixed_date();
    let yesterday = Date::from_ymd(2024, 6, 14).unwrap();
    let zero = DailySummary {
        complete_count: 0,
        complete_minutes: 0,
        partial_count: 0,
        partial_minutes: 0,
        total_focus_minutes: 0,
    };
    let busy = DailySummary {
        complete_count: 2,
        complete_minutes: 50,
        partial_count: 0,
        partial_minutes: 0,
        total_focus_minutes: 50,
    };
    let input = vec![(yesterday, zero), (today, busy)];
    let weekly = get_weekly_stats(&today, &input);
    assert_eq!(weekly.weekly_total_minutes, 50);
    assert_eq!(weekly.days.len(), 2);
    assert_eq!(weekly.days[0].date, "2024-06-14");
    assert!(!weekly.days[0].is_today);
    assert_eq!(weekly.days[1].day_name, "Sat");
    assert!(weekly.days[1].is_today);
    assert_eq!(weekly.days[1].session_count, 2);
}

#[test]
fn test_day_abbreviation_matches_calendar() {
    assert_eq!(get_day_abbreviation(&fixed_date()), "Sat");
    assert_eq!(
        get_day_abbreviation(&Date::from_ymd(1970, 1, 1).unwrap()),
        "Thu"
    );
    assert_eq!(
        get_day_abbreviation(&Date::from_ymd(2024, 6, 17).unwrap()),
        "Mon"
    );
}

#[test]
fn test_error_messages_name_the_failure() {
    let e = TimerError::InvalidTransition {
        action: "start".to_string(),
        current_status: "focus".to_string(),
    };
    assert_eq!(
        e.message(),
        "Invalid timer state transition: cannot start when status is focus"
    );
    assert_eq!(TimerError::LockPoisoned.message(), "Timer state lock poisoned");
    assert_eq!(
        AppError::StorageError("disk full".to_string()).message(),
        "Storage error: disk full"
    );
    assert_eq!(
        AppError::ParseError("bad".to_string()).message(),
        "Parse error: bad"
    );
}

#[test]
fn test_session_saved_payload_carries_summary() {
    let summary = DailySummary {
        complete_count: 1,
        complete_minutes: 25,
        partial_count: 0,
        partial_minutes: 0,
        total_focus_minutes: 25,
    };
    let payload = make_session_saved_payload(
        SessionType::Focus,
        SessionStatus::Complete,
        1500,
        &summary,
    );
    assert_eq!(payload.session_type, "focus");
    assert_eq!(payload.status, "Complete");
    assert_eq!(payload.duration_seconds, 1500);
    assert_eq!(payload.complete_count, 1);
    assert_eq!(payload.total_focus_minutes, 25);
}

#[test]
fn test_file_paths_join_their_directories() {
    assert_eq!(get_settings_file_path("/data"), "/data/settings.json");
    assert_eq!(
        get_session_file_path("/data/sessions", &fixed_date()),
        "/data/sessions/2024-06-15.md"
    );
}
