//! Idle detection: how long since the last input, and when to report a change.
use vstd::prelude::*;

verus! {

/// After this many seconds without input the user counts as idle.
pub const IDLE_THRESHOLD_SECS: u64 = 60;

/// Milliseconds between two looks at the input clock.
pub const POLL_INTERVAL_MS: u64 = 5_000;

/// Whether the user is away from keyboard and mouse.
#[derive(Debug, Clone, Copy, PartialEq, Eq, Structural)]
pub enum IdleEvent {
    Idle,
    Active,
}

/// Milliseconds since the last input, from the system tick count and the tick
/// of the last input; 0 when the last input could not be read. A last-input
/// tick ahead of the tick count counts as no time at all.
pub fn idle_time_ms(query_ok: bool, tick_count: u32, last_input_tick: u32) -> (r: u64)
    ensures
        r == (if query_ok && tick_count >= last_input_tick {
            tick_count - last_input_tick
        } else {
            0
        }),
{
    if query_ok {
        tick_count.saturating_sub(last_input_tick) as u64
    } else {
        0
    }
}

/// The state that an idle time of `idle_ms` milliseconds stands for.
pub open spec fn spec_classify(idle_ms: u64) -> IdleEvent {
    if idle_ms >= IDLE_THRESHOLD_SECS * 1000 {
        IdleEvent::Idle
    } else {
        IdleEvent::Active
    }
}

/// Idle once the idle time reaches the threshold, active before.
pub fn classify(idle_ms: u64) -> (r: IdleEvent)
    ensures
        r == spec_classify(idle_ms),
{
    if idle_ms >= IDLE_THRESHOLD_SECS * 1000 {
        IdleEvent::Idle
    } else {
        IdleEvent::Active
    }
}

/// Reports the idle state only when it changes.
#[derive(Debug)]
pub struct IdleMonitor {
    pub last_state: IdleEvent,
}

/// The report for a reading and the state the monitor keeps afterwards.
pub open spec fn monitor_step(last: IdleEvent, idle_ms: u64) -> (IdleEvent, Option<IdleEvent>) {
    let now = spec_classify(idle_ms);
    if now != last {
        (now, Some(now))
    } else {
        (last, None)
    }
}

impl IdleMonitor {
    /// The user counts as active at the start.
    pub fn new() -> (r: IdleMonitor)
        ensures
            r.last_state == IdleEvent::Active,
    {
        IdleMonitor { last_state: IdleEvent::Active }
    }

    /// Takes a reading; returns the new state when it differs from the last
    /// one reported.
    pub fn observe(&mut self, idle_ms: u64) -> (r: Option<IdleEvent>)
        ensures
            (final(self).last_state, r) == monitor_step(old(self).last_state, idle_ms),
    {
        let now = classify(idle_ms);
        if now != self.last_state {
            self.last_state = now;
            Some(now)
        } else {
            None
        }
    }
}

/// The state after a reading depends on that reading alone: idle exactly
/// when the idle time has reached the threshold, whatever was remembered;
/// and it is reported exactly when it differs from what was remembered.
pub proof fn lemma_state_follows_reading(last: IdleEvent, other: IdleEvent, idle_ms: u64)
    ensures
        (monitor_step(last, idle_ms).0 == IdleEvent::Idle) == (idle_ms >= IDLE_THRESHOLD_SECS * 1000),
        monitor_step(last, idle_ms).0 == monitor_step(other, idle_ms).0,
        monitor_step(last, idle_ms).1 == (if monitor_step(last, idle_ms).0 != last {
            Some(monitor_step(last, idle_ms).0)
        } else {
            None
        }),
{
}

/// A reading is reported only when it differs from the state remembered,
/// and the report becomes the state remembered; a quiet reading leaves it as
/// it was. So two reports in a row never say the same thing, and the first
/// report after a start is `Idle`.
pub proof fn lemma_reports_only_changes(last: IdleEvent, idle_ms: u64)
    ensures
        monitor_step(last, idle_ms).1 is None ==> monitor_step(last, idle_ms).0 == last,
        monitor_step(last, idle_ms).1 matches Some(e) ==> e != last && monitor_step(
            last,
            idle_ms,
        ).0 == e,
        last == IdleEvent::Active ==> (monitor_step(last, idle_ms).1 is Some
            <==> monitor_step(last, idle_ms).1 == Some(IdleEvent::Idle)),
{
}

} // verus!
