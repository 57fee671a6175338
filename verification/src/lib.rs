//! Core engine of a local focus timer: the timer state machine, the
//! per-day session record format with its parser, the crash-recovery
//! protocol, and the day-streak statistics.

use vstd::prelude::*;

pub mod achievements;
pub mod clock;
pub mod daily_file;
pub mod error;
pub mod events;
pub mod recovery;
pub mod round_trip;
pub mod scheduler;
pub mod session;
pub mod settings;
pub mod stats;
pub mod streak;
pub mod text;
pub mod time;
pub mod timer;

verus! {

/// Focus sessions run for 25 minutes by default.
pub const FOCUS_DURATION_SECONDS: u32 = 1500;

/// Breaks run for 5 minutes by default.
pub const BREAK_DURATION_SECONDS: u32 = 300;

} // verus!
