//! The crash-recovery protocol: the single-slot record of an in-flight
//! session, and the decision that reconstructs an interrupted session
//! from it after an unclean shutdown.

use vstd::prelude::*;

use crate::session::{spec_duration_between, Session, SessionStatus, SessionType};
use crate::time::LocalDateTime;

verus! {

/// The single-slot durable record of a session in flight: when it
/// started, what kind it is, and when it was last seen alive.  The
/// timestamps are Unix seconds, UTC.
#[derive(Debug, Clone, PartialEq, Eq)]
pub struct RecoveryData {
    pub session_start: i64,
    pub session_type: String,
    pub last_tick: i64,
}

impl RecoveryData {
    /// A fresh record for a session starting now.
    pub fn new(session_type: SessionType, now: i64) -> (r: RecoveryData)
        ensures
            r.session_start == now,
            r.last_tick == now,
            session_type == SessionType::Focus ==> r.session_type@ == "focus"@,
            session_type == SessionType::Break ==> r.session_type@ == "break"@,
    {
        RecoveryData {
            session_start: now,
            session_type: String::from_str(session_type.as_str()),
            last_tick: now,
        }
    }

    /// Move the last-seen-alive stamp forward; everything else stays.
    pub fn refresh(&mut self, now: i64)
        ensures
            final(self).session_start == old(self).session_start,
            final(self).session_type == old(self).session_type,
            final(self).last_tick == now,
    {
        self.last_tick = now;
    }
}

/// What the startup check decides to do about a recovery record.
#[derive(Debug, Clone, PartialEq, Eq)]
pub enum RecoveryAction {
    /// No record existed: nothing to do.
    Nothing,
    /// A record existed but is not worth recovering: delete it.
    DeleteOnly,
    /// Persist the reconstructed interrupted session, then delete the
    /// record.
    SaveAndDelete(Session),
}

/// The decision for a record whose instants have been rendered into
/// local wall-clock readings — or failed to render.  This part is
/// exact for every rendering outcome: a break is discarded, a focus
/// record with both renderings becomes the interrupted session
/// spanning them, and one whose instants cannot be rendered is
/// discarded rather than mis-recorded.
pub fn recovery_action_from_times(
    record: &RecoveryData,
    start_time: Option<LocalDateTime>,
    end_time: Option<LocalDateTime>,
) -> (r: RecoveryAction)
    ensures
        record.session_type@ == "break"@ ==> r == RecoveryAction::DeleteOnly,
        start_time is Some && end_time is Some && record.session_type@ != "break"@ ==> r
            == RecoveryAction::SaveAndDelete(
            Session {
                start_time: start_time->Some_0,
                end_time: end_time->Some_0,
                duration_seconds: spec_duration_between(
                    start_time->Some_0.instant as int,
                    end_time->Some_0.instant as int,
                ) as u32,
                status: SessionStatus::Interrupted,
                session_type: SessionType::Focus,
            },
        ),
        record.session_type@ != "break"@ && (start_time is None || end_time is None) ==> r
            == RecoveryAction::DeleteOnly,
{
    // The stored type string is read leniently: anything that is not
    // exactly "break" recovers as a focus session.
    let is_break = crate::text::str_eq(record.session_type.as_str(), "break");
    if is_break {
        proof {
            reveal_strlit("break");
        }
        return RecoveryAction::DeleteOnly;
    }
    match (start_time, end_time) {
        (Some(st), Some(en)) => {
            let session = Session::new(st, en, SessionStatus::Interrupted, SessionType::Focus);
            RecoveryAction::SaveAndDelete(session)
        },
        _ => RecoveryAction::DeleteOnly,
    }
}

/// Decide what to do with the recovery record found at startup, if
/// any.  A break in flight is discarded; a focus session becomes an
/// interrupted session spanning its start to its last tick.  A record
/// whose instants have no local calendar rendering in the supported
/// range is discarded rather than mis-recorded.
pub fn check_and_recover_session(record: &Option<RecoveryData>) -> (r: RecoveryAction)
    ensures
        record is None ==> r == RecoveryAction::Nothing,
        record matches Some(d) && d.session_type@ == "break"@ ==> r
            == RecoveryAction::DeleteOnly,
        r matches RecoveryAction::SaveAndDelete(s) ==> record matches Some(d)
            && d.session_type@ != "break"@ && {
            &&& s.status == SessionStatus::Interrupted
            &&& s.session_type == SessionType::Focus
            &&& s.start_time.instant == d.session_start
            &&& s.end_time.instant == d.last_tick
            &&& s.duration_seconds == spec_duration_between(
                d.session_start as int,
                d.last_tick as int,
            )
            &&& s.wf()
        },
        record matches Some(d) && d.session_type@ != "break"@ ==> (r
            matches RecoveryAction::SaveAndDelete(_) || r == RecoveryAction::DeleteOnly),
        record is Some ==> r != RecoveryAction::Nothing,
{
    let data = match record {
        None => {
            return RecoveryAction::Nothing;
        },
        Some(d) => d,
    };
    let start_time = LocalDateTime::from_utc(data.session_start);
    let end_time = LocalDateTime::from_utc(data.last_tick);
    recovery_action_from_times(data, start_time, end_time)
}

} // verus!
