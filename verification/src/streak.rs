//! The streak calculator: from a backward scan of which days hold a
//! complete session, derive the current and longest consecutive-day
//! streak.

use vstd::prelude::*;

use crate::session::SessionStatus;
use crate::text::{chars_of, contains_char, contains_seq, find_char_in, find_seq_in};

verus! {

/// How many consecutive days count, walking backward from position
/// `from` of the scan.
pub open spec fn spec_run_len(flags: Seq<bool>, from: int) -> int
    decreases flags.len() - from,
{
    if from < 0 || from >= flags.len() || !flags[from] {
        0
    } else {
        1 + spec_run_len(flags, from + 1)
    }
}

/// The current streak a backward scan denotes.  Position 0 is today,
/// position `i` the day `i` days back; the scan ends at the first day
/// that does not count, or at the oldest day on record.  A today not
/// yet logged does not break the streak; missing both today and
/// yesterday does.
pub open spec fn spec_current_streak(flags: Seq<bool>) -> int {
    if flags.len() == 0 {
        0
    } else if flags[0] {
        1 + spec_run_len(flags, 1)
    } else if flags.len() >= 2 && flags[1] {
        1 + spec_run_len(flags, 2)
    } else {
        0
    }
}

/// A run never outruns the scan.
pub proof fn lemma_run_len_bound(flags: Seq<bool>, from: int)
    ensures
        0 <= spec_run_len(flags, from) <= flags.len() - from || spec_run_len(flags, from) == 0,
    decreases flags.len() - from,
{
    if !(from < 0 || from >= flags.len() || !flags[from]) {
        lemma_run_len_bound(flags, from + 1);
    }
}

/// The streak never exceeds the days scanned.
pub proof fn lemma_current_streak_bound(flags: Seq<bool>)
    ensures
        0 <= spec_current_streak(flags) <= flags.len(),
{
    lemma_run_len_bound(flags, 1);
    lemma_run_len_bound(flags, 2);
}

/// Walking over counting days adds their number to the run.
proof fn lemma_run_len_shift(flags: Seq<bool>, a: int, b: int)
    requires
        0 <= a <= b <= flags.len(),
        forall|j: int| a <= j < b ==> flags[j],
    ensures
        spec_run_len(flags, a) == (b - a) + spec_run_len(flags, b),
    decreases b - a,
{
    if a < b {
        lemma_run_len_shift(flags, a + 1, b);
    }
}

/// Count the consecutive counting days from a position on.
fn run_from(flags: &Vec<bool>, start: usize) -> (r: u32)
    requires
        start <= flags@.len(),
        flags@.len() <= u32::MAX,
    ensures
        r == spec_run_len(flags@, start as int),
{
    let n = flags.len();
    let mut i: usize = start;
    while i < n && flags[i]
        invariant
            start <= i <= n == flags@.len(),
            n <= u32::MAX,
            forall|j: int| start <= j < i ==> flags@[j],
        decreases n - i,
    {
        i = i + 1;
    }
    proof {
        lemma_run_len_shift(flags@, start as int, i as int);
    }
    (i - start) as u32
}

/// Derive the streak from a backward scan of which days count,
/// together with the stored longest streak.  Returns the current
/// streak and the new longest, which is the larger of the stored value
/// and the current one.
pub fn calculate_streak(flags: &Vec<bool>, stored_longest: u32) -> (r: (u32, u32))
    requires
        1 <= flags@.len() <= u32::MAX,
    ensures
        r.0 == spec_current_streak(flags@),
        r.1 == if stored_longest >= r.0 {
            stored_longest as int
        } else {
            r.0 as int
        },
{
    proof {
        lemma_current_streak_bound(flags@);
    }
    let n = flags.len();
    let current: u32 = if flags[0] {
        proof {
            lemma_run_len_bound(flags@, 1);
        }
        1 + run_from(flags, 1)
    } else if n >= 2 && flags[1] {
        proof {
            lemma_run_len_bound(flags@, 2);
        }
        1 + run_from(flags, 2)
    } else {
        0
    };
    let longest = if stored_longest >= current {
        stored_longest
    } else {
        current
    };
    (current, longest)
}

/// Whether a day's stored text records at least one complete session:
/// it must hold both the completion glyph and the word `Complete`.
pub fn has_complete_session(content: &str) -> (r: bool)
    ensures
        r == (contains_char(content@, '\u{2713}') && contains_seq(
            content@,
            SessionStatus::Complete.spec_word(),
        )),
{
    let v = chars_of(content);
    let n = v.len();
    proof {
        assert(v@.subrange(0, n as int) =~= v@);
        reveal_strlit("Complete");
        assert("Complete"@ =~= SessionStatus::Complete.spec_word());
    }
    find_char_in(&v, 0, n, '\u{2713}') && find_seq_in(&v, 0, n, "Complete")
}

} // verus!
