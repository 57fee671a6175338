//! The scheduler's decision logic: what one once-per-second tick does
//! to the timer, and what the foreground commands decide.  The loop
//! that sleeps, locks and performs the resulting actions lives at the
//! process edge; everything it decides is here.

use vstd::prelude::*;

use crate::error::TimerError;
use crate::events::TimerTickPayload;
use crate::session::SessionType;
use crate::timer::{spec_status_name, TimerState, TimerStatus};
use crate::{BREAK_DURATION_SECONDS, FOCUS_DURATION_SECONDS};

verus! {

/// Every how many ticks a running focus session refreshes the recovery
/// record, bounding the data lost to a crash to that many seconds.
pub const RECOVERY_UPDATE_INTERVAL: u32 = 30;

/// Start a focus session.  Rejected, with the state untouched, unless
/// the timer is idle.
pub fn start_timer(state: &mut TimerState) -> (r: Result<TimerState, TimerError>)
    ensures
        old(state).status != TimerStatus::Idle ==> *final(state) == *old(state),
        old(state).status != TimerStatus::Idle ==> (r matches Err(e) && e
            matches TimerError::InvalidTransition { action, current_status } && action@
            == "start"@ && current_status@ == spec_status_name(old(state).status)),
        old(state).status == TimerStatus::Idle ==> ({
            &&& final(state).status == TimerStatus::Focus
            &&& final(state).remaining_seconds == FOCUS_DURATION_SECONDS
            &&& final(state).session_start_time is Some
            &&& final(state).paused_status is None
            &&& r matches Ok(snapshot) && snapshot == *final(state)
        }),
{
    if !matches!(state.status, TimerStatus::Idle) {
        return Err(
            TimerError::InvalidTransition {
                action: String::from_str("start"),
                current_status: String::from_str(state.status.as_str()),
            },
        );
    }
    state.start_focus();
    Ok(*state)
}

/// Pause the running interval.  Rejected, with the state untouched,
/// from idle or when already paused.
pub fn pause_timer(state: &mut TimerState) -> (r: Result<TimerState, TimerError>)
    ensures
        *final(state) == crate::timer::spec_pause(*old(state)).0,
        crate::timer::spec_pause(*old(state)).1 ==> (r matches Ok(snapshot) && snapshot
            == *final(state)),
        !crate::timer::spec_pause(*old(state)).1 ==> (r matches Err(e) && e
            matches TimerError::InvalidTransition { action, current_status } && action@
            == "pause"@ && current_status@ == spec_status_name(old(state).status)),
{
    let ghost before = *state;
    if !state.pause() {
        proof {
            assert(*state == before);
        }
        return Err(
            TimerError::InvalidTransition {
                action: String::from_str("pause"),
                current_status: String::from_str(state.status.as_str()),
            },
        );
    }
    Ok(*state)
}

/// Resume a paused interval.  Rejected, with the state untouched,
/// without a prior pause.
pub fn resume_timer(state: &mut TimerState) -> (r: Result<TimerState, TimerError>)
    ensures
        *final(state) == crate::timer::spec_resume(*old(state)).0,
        crate::timer::spec_resume(*old(state)).1 ==> (r matches Ok(snapshot) && snapshot
            == *final(state)),
        !crate::timer::spec_resume(*old(state)).1 ==> (r matches Err(e) && e
            matches TimerError::InvalidTransition { action, current_status } && action@
            == "resume"@ && current_status@ == spec_status_name(old(state).status)),
{
    if !state.resume() {
        return Err(
            TimerError::InvalidTransition {
                action: String::from_str("resume"),
                current_status: String::from_str(state.status.as_str()),
            },
        );
    }
    Ok(*state)
}

/// The interrupted session `stop` persists, if any: the recorded start
/// of the session and its kind.  A session is persisted when a focus
/// interval — running, or paused from focus — was in flight and had a
/// recorded start.
pub open spec fn spec_stop_save(s: TimerState) -> Option<(i64, SessionType)> {
    let active = (s.status == TimerStatus::Focus || s.status == TimerStatus::Paused)
        && s.paused_status != Some(TimerStatus::Break);
    if active && s.session_start_time is Some {
        Some((s.session_start_time->Some_0, spec_stop_session_type(s)))
    } else {
        None
    }
}

/// The kind of the session `stop` ends: read through the pause, and
/// defaulting to focus.
pub open spec fn spec_stop_session_type(s: TimerState) -> SessionType {
    if s.status == TimerStatus::Paused {
        match s.paused_status {
            Some(TimerStatus::Break) => SessionType::Break,
            _ => SessionType::Focus,
        }
    } else {
        match s.status {
            TimerStatus::Break => SessionType::Break,
            _ => SessionType::Focus,
        }
    }
}

/// What `stop` decided: the state snapshot after the reset, and the
/// interrupted session to persist, if one was in flight.
pub struct StopOutcome {
    pub state: TimerState,
    pub interrupted: Option<(i64, SessionType)>,
}

/// Stop the timer: decide whether an interrupted session must be
/// persisted, then reset to idle.  The caller persists the session,
/// publishes the events and deletes the recovery record.
pub fn stop_timer(state: &mut TimerState) -> (r: StopOutcome)
    ensures
        final(state).status == TimerStatus::Idle,
        final(state).remaining_seconds == 0,
        final(state).session_start_time is None,
        final(state).paused_status is None,
        r.state == *final(state),
        r.interrupted == spec_stop_save(*old(state)),
{
    let is_active_focus_session = matches!(
        state.status,
        TimerStatus::Focus | TimerStatus::Paused
    ) && !matches!(state.paused_status, Some(TimerStatus::Break));
    let interrupted: Option<(i64, SessionType)> = match (state.session_start_time,
    is_active_focus_session) {
        (Some(start_time), true) => {
            let session_type = if matches!(state.status, TimerStatus::Paused) {
                match state.paused_status {
                    Some(TimerStatus::Break) => SessionType::Break,
                    _ => SessionType::Focus,
                }
            } else {
                match state.status {
                    TimerStatus::Break => SessionType::Break,
                    _ => SessionType::Focus,
                }
            };
            Some((start_time, session_type))
        },
        _ => None,
    };
    state.stop();
    StopOutcome { state: *state, interrupted }
}

/// The actions a finished interval triggers: what kind it was, its
/// configured duration for the completion event, the recorded session
/// start to persist (with status complete), whether to delete the
/// recovery record, whether the scheduler terminates, and the tick
/// event announcing the state transitioned to.
pub struct CompletionOutcome {
    pub session_type: SessionType,
    pub nominal_duration: u32,
    pub save_start: Option<i64>,
    pub delete_recovery: bool,
    pub stop_scheduler: bool,
    pub final_tick_event: TimerTickPayload,
}

/// What one scheduler tick decided.
pub struct TickOutcome {
    pub ticked: bool,
    pub new_tick_count: u32,
    pub tick_event: Option<TimerTickPayload>,
    pub refresh_recovery: bool,
    pub completion: Option<CompletionOutcome>,
}

/// Advance the timer by one scheduled second and decide everything the
/// tick entails.  A paused timer is left entirely alone.  An effective
/// tick yields a tick event, and — during focus, at the configured
/// interval — a recovery-record refresh.  A countdown that reaches
/// zero finishes the interval: focus rolls over into a break, a break
/// resets to idle and terminates the scheduler.
pub fn scheduler_tick(state: &mut TimerState, tick_count: u32) -> (r: TickOutcome)
    requires
        tick_count < u32::MAX,
    ensures
        r.ticked == old(state).spec_ticks(),
        r.new_tick_count == if r.ticked {
            tick_count + 1
        } else {
            tick_count as int
        },
        old(state).status == TimerStatus::Paused ==> *final(state) == *old(state),
        r.tick_event is Some <==> r.ticked,
        r.ticked ==> (r.tick_event matches Some(e) && e.remaining_seconds == old(
            state,
        ).spec_tick().remaining_seconds && e.status@ == spec_status_name(old(state).status)),
        r.refresh_recovery == (old(state).spec_ticks() && (tick_count + 1) % (
        RECOVERY_UPDATE_INTERVAL as int) == 0 && old(state).status == TimerStatus::Focus),
        (r.completion is Some) <==> old(state).spec_tick().spec_is_complete(),
        r.completion matches Some(c) ==> ({
            let t = old(state).spec_tick();
            &&& c.session_type == (if t.status == TimerStatus::Focus {
                SessionType::Focus
            } else {
                SessionType::Break
            })
            &&& c.nominal_duration == (if t.status == TimerStatus::Focus {
                FOCUS_DURATION_SECONDS as int
            } else {
                BREAK_DURATION_SECONDS as int
            })
            &&& c.save_start == t.session_start_time
            &&& c.delete_recovery == (t.status == TimerStatus::Focus)
            &&& c.stop_scheduler == (t.status == TimerStatus::Break)
            &&& (t.status == TimerStatus::Focus ==> final(state).status == TimerStatus::Break
                && final(state).remaining_seconds == BREAK_DURATION_SECONDS
                && final(state).session_start_time is Some && final(state).paused_status is None
                && c.final_tick_event.remaining_seconds == BREAK_DURATION_SECONDS
                && c.final_tick_event.status@ == "break"@)
            &&& (t.status == TimerStatus::Break ==> final(state).status == TimerStatus::Idle
                && final(state).remaining_seconds == 0
                && final(state).session_start_time is None && final(state).paused_status is None
                && c.final_tick_event.remaining_seconds == 0 && c.final_tick_event.status@
                == "idle"@)
        }),
        r.completion is None ==> *final(state) == old(state).spec_tick(),
{
    if matches!(state.status, TimerStatus::Paused) {
        return TickOutcome {
            ticked: false,
            new_tick_count: tick_count,
            tick_event: None,
            refresh_recovery: false,
            completion: None,
        };
    }
    let ghost before = *state;
    let ticked = state.tick();
    let new_tick_count = if ticked {
        tick_count + 1
    } else {
        tick_count
    };
    let tick_event = if ticked {
        Some(
            TimerTickPayload {
                remaining_seconds: state.remaining_seconds,
                status: String::from_str(state.status.as_str()),
            },
        )
    } else {
        None
    };
    let refresh_recovery = ticked && new_tick_count % RECOVERY_UPDATE_INTERVAL == 0
        && matches!(state.status, TimerStatus::Focus);
    let completion = if state.is_complete() {
        let is_focus = matches!(state.status, TimerStatus::Focus);
        let session_type = if is_focus {
            SessionType::Focus
        } else {
            SessionType::Break
        };
        let nominal_duration = if is_focus {
            FOCUS_DURATION_SECONDS
        } else {
            BREAK_DURATION_SECONDS
        };
        let save_start = state.session_start_time;
        let final_tick_event: TimerTickPayload;
        if is_focus {
            state.start_break();
            final_tick_event = TimerTickPayload {
                remaining_seconds: state.remaining_seconds,
                status: String::from_str(state.status.as_str()),
            };
        } else {
            state.stop();
            final_tick_event = TimerTickPayload {
                remaining_seconds: 0,
                status: String::from_str("idle"),
            };
        }
        Some(
            CompletionOutcome {
                session_type,
                nominal_duration,
                save_start,
                delete_recovery: is_focus,
                stop_scheduler: !is_focus,
                final_tick_event,
            },
        )
    } else {
        None
    };
    TickOutcome { ticked, new_tick_count, tick_event, refresh_recovery, completion }
}

} // verus!
