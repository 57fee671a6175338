use focus_timer::daily_file::DailySessionFile;
use focus_timer::recovery::{check_and_recover_session, RecoveryAction, RecoveryData};
use focus_timer::session::{SessionStatus, SessionType};
use focus_timer::time::{Date, LocalDateTime};

#[test]
fn test_recovery_synthesizes_interrupted_focus_session() {
    // a focus session started at T, last seen alive at T + 600 s
    let t: i64 = 1_700_000_000;
    let record = RecoveryData {
        session_start: t,
        session_type: "focus".to_string(),
        last_tick: t + 600,
    };

    let action = check_and_recover_session(&Some(record));
    let session = match action {
        RecoveryAction::SaveAndDelete(s) => s,
        other => panic!("expected a session to save, got {:?}", other),
    };
    assert_eq!(session.status, SessionStatus::Interrupted);
    assert_eq!(session.session_type, SessionType::Focus);
    assert_eq!(session.duration_seconds, 600);
    assert_eq!(session.start_time.instant, t);
    assert_eq!(session.end_time.instant, t + 600);

    // persisting it appends exactly one session to the day's record
    let mut file = DailySessionFile::new(session.start_time.date);
    file.add_session(session);
    assert_eq!(file.sessions.len(), 1);
    assert_eq!(file.summary.partial_count, 1);
    assert_eq!(file.summary.partial_minutes, 10);
}

#[test]
fn test_recovery_discards_break_sessions() {
    let record = RecoveryData {
        session_start: 1_700_000_000,
        session_type: "break".to_string(),
        last_tick: 1_700_000_300,
    };
    assert_eq!(
        check_and_recover_session(&Some(record)),
        RecoveryAction::DeleteOnly
    );
}

#[test]
fn test_recovery_without_record_does_nothing() {
    assert_eq!(check_and_recover_session(&None), RecoveryAction::Nothing);
}

#[test]
fn test_recovery_record_lifecycle_values() {
    let record = RecoveryData::new(SessionType::Focus, 1_700_000_000);
    assert_eq!(record.session_type, "focus");
    assert_eq!(record.session_start, 1_700_000_000);
    assert_eq!(record.last_tick, 1_700_000_000);

    let mut record = record;
    record.refresh(1_700_000_030);
    assert_eq!(record.session_start, 1_700_000_000);
    assert_eq!(record.last_tick, 1_700_000_030);
}

#[test]
fn test_recovery_unknown_type_recovers_as_focus() {
    let record = RecoveryData {
        session_start: 1_700_000_000,
        session_type: "something-else".to_string(),
        last_tick: 1_700_000_060,
    };
    match check_and_recover_session(&Some(record)) {
        RecoveryAction::SaveAndDelete(s) => {
            assert_eq!(s.session_type, SessionType::Focus);
            assert_eq!(s.duration_seconds, 60);
        }
        other => panic!("expected a session to save, got {:?}", other),
    }
}

#[test]
fn test_date_helpers() {
    let d = Date::from_ymd(2024, 6, 15).unwrap();
    assert_eq!(d.days_from_epoch(), 19889);
    let epoch = Date::from_ymd(1970, 1, 1).unwrap();
    assert_eq!(epoch.days_from_epoch(), 0);
    let leap = Date::from_ymd(2000, 3, 1).unwrap();
    assert_eq!(leap.days_from_epoch(), 11017);
    assert!(Date::from_ymd(2023, 2, 29).is_none());
    assert!(Date::from_ymd(2024, 2, 29).is_some());
    assert!(Date::from_ymd(2024, 13, 1).is_none());
    assert!(Date::from_ymd(0, 1, 1).is_none());
}

#[test]
fn test_clock_conversions_produce_valid_dates() {
    let today = Date::today_local().unwrap();
    assert!(today.year >= 2020);

    let t = LocalDateTime::from_utc(1_700_000_000).unwrap();
    assert_eq!(t.instant, 1_700_000_000);
    assert!(t.secs_of_day < 86400);
    assert!(t.date.year == 2023);
}
