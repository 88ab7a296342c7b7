//! Small decisions shared by the loops and the interface layer.
//!
//! Clocks live outside the library: callers hand in elapsed times and
//! receive values to display or act on.

use vstd::prelude::*;

verus! {

/// The unit in which an age is displayed.
#[derive(Debug, Clone, Copy, PartialEq, Eq, Structural)]
pub enum TimeUnit {
    Seconds,
    Minutes,
    Hours,
    Days,
}

/// The age shown for an elapsed time: the largest unit that has at
/// least one whole step, and the count of those steps.
pub open spec fn time_ago_spec(elapsed_secs: u64) -> (u64, TimeUnit) {
    if elapsed_secs < 60 {
        (elapsed_secs, TimeUnit::Seconds)
    } else if elapsed_secs < 3600 {
        ((elapsed_secs / 60) as u64, TimeUnit::Minutes)
    } else if elapsed_secs < 86400 {
        ((elapsed_secs / 3600) as u64, TimeUnit::Hours)
    } else {
        ((elapsed_secs / 86400) as u64, TimeUnit::Days)
    }
}

/// Converts an elapsed time into the count and unit to display.
pub fn time_ago(elapsed_secs: u64) -> (r: (u64, TimeUnit))
    ensures
        r == time_ago_spec(elapsed_secs),
{
    if elapsed_secs < 60 {
        (elapsed_secs, TimeUnit::Seconds)
    } else if elapsed_secs < 3600 {
        (elapsed_secs / 60, TimeUnit::Minutes)
    } else if elapsed_secs < 86400 {
        (elapsed_secs / 3600, TimeUnit::Hours)
    } else {
        (elapsed_secs / 86400, TimeUnit::Days)
    }
}

/// Whether a loop must terminate after observing the shutdown channel:
/// on a broadcast of `true`, or on a closed channel (`None`); a
/// broadcast of `false` is ignored.
pub fn should_stop(signal: Option<bool>) -> (r: bool)
    ensures
        r == (signal is None || signal == Some(true)),
{
    match signal {
        None => true,
        Some(v) => v,
    }
}

/// Whether a timed status message is still on display: one was set,
/// and its lifetime has not yet run out.
pub fn message_visible(set_at_ms: Option<u64>, now_ms: u64, lifetime_ms: u64) -> (r: bool)
    ensures
        r == (set_at_ms matches Some(t) && t <= now_ms && now_ms - t < lifetime_ms),
{
    match set_at_ms {
        None => false,
        Some(t) => t <= now_ms && now_ms - t < lifetime_ms,
    }
}

/// The cooldown before the interface may offer a resend of an
/// unanswered download request.
pub const DOWNLOAD_RESEND_COOLDOWN_SECS: u64 = 60;

/// The cooldown before the interface may offer a resend of an
/// unanswered explore request.
pub const EXPLORE_RESEND_COOLDOWN_SECS: u64 = 30;

/// Whether the interface may offer a resend: only for a request that
/// was sent, was never accepted, and has waited out the cooldown.
pub fn can_resend(
    sent: bool,
    accepted: bool,
    sent_elapsed_secs: Option<u64>,
    cooldown_secs: u64,
) -> (r: bool)
    ensures
        r == (sent && !accepted && (sent_elapsed_secs matches Some(e) && e >= cooldown_secs)),
{
    if !sent || accepted {
        return false;
    }
    match sent_elapsed_secs {
        None => false,
        Some(e) => e >= cooldown_secs,
    }
}

} // verus!
