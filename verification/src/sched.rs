//! The wake scheduler: how long the event loop may block, and what one wake
//! of the loop does. The blocking itself is the caller's; every decision made
//! around it is here.

use vstd::prelude::*;

verus! {

/// Milliseconds in a minute.
pub const MINUTE_MS: u64 = 60000;

/// Milliseconds past the minute boundary at which the periodic tick aims, so
/// that a reading taken right after the wake falls inside the new minute.
pub const TICK_SKEW_MS: u64 = 1;

/// The largest timeout handed to the blocking wait.
pub const WAIT_CAP_MS: u64 = 65535;

/// The wait before the next periodic tick, computed from the current time in
/// milliseconds since the epoch: the time left to one millisecond past the
/// next minute boundary, capped at the wait primitive's maximum.
pub open spec fn wait_for(now_ms: nat) -> int {
    let rem = MINUTE_MS + TICK_SKEW_MS - now_ms % (MINUTE_MS as nat);
    if rem > WAIT_CAP_MS {
        WAIT_CAP_MS as int
    } else {
        rem
    }
}

/// Computes the wait before the next periodic tick. The wait never exceeds
/// the time left in the current minute plus the skew, and is never zero, so
/// the deadline it sets is strictly in the future.
pub fn wait_ms(now_ms: u64) -> (w: u16)
    ensures
        w as int == wait_for(now_ms as nat),
        2 <= w <= MINUTE_MS + TICK_SKEW_MS,
        w as int <= MINUTE_MS + TICK_SKEW_MS - (now_ms as int) % (MINUTE_MS as int),
{
    let rem: u64 = MINUTE_MS + TICK_SKEW_MS - now_ms % MINUTE_MS;
    if rem > WAIT_CAP_MS {
        WAIT_CAP_MS as u16
    } else {
        rem as u16
    }
}

/// The periodic tick self-corrects: the wait always lands exactly one
/// millisecond past a minute boundary, and strictly after now.
pub proof fn lemma_tick_lands_past_boundary(now_ms: nat)
    ensures
        (now_ms + wait_for(now_ms)) % (MINUTE_MS as int) == TICK_SKEW_MS,
        now_ms + wait_for(now_ms) > now_ms,
{
    let m = MINUTE_MS as int;
    let r = (now_ms as int) % m;
    vstd::arithmetic::div_mod::lemma_fundamental_div_mod(now_ms as int, m);
    let k = (now_ms as int) / m;
    assert(now_ms as int == m * k + r);
    assert(0 <= r < m) by {
        vstd::arithmetic::div_mod::lemma_mod_bound(now_ms as int, m);
    }
    let target = now_ms + wait_for(now_ms);
    assert(target == m * (k + 1) + 1) by {
        assert(wait_for(now_ms) == m + 1 - r);
    }
    assert(target % m == 1) by {
        vstd::arithmetic::div_mod::lemma_mod_multiples_vanish(k + 1, 1, m);
    }
}

/// How one wake of the loop ended: the timeout ran out, the notification
/// source has events queued, or the wait itself failed.
#[derive(Clone, Copy, Debug, PartialEq, Eq, Structural)]
pub enum WakeOutcome {
    TimedOut,
    NotificationsReady,
    WaitFailed,
}

/// What one cycle does after a wake: whether to drain the queued
/// notifications, whether to print a status line, and whether the process
/// must stop because the event source is broken.
#[derive(Clone, Copy, Debug, PartialEq, Eq, Structural)]
pub struct CyclePlan {
    pub drain: bool,
    pub print: bool,
    pub fatal: bool,
}

/// The cycle plan for each wake outcome: a timeout goes straight to the
/// report, queued notifications are drained first and reported once, and a
/// failed wait is fatal.
pub open spec fn plan_for(o: WakeOutcome) -> CyclePlan {
    match o {
        WakeOutcome::TimedOut => CyclePlan { drain: false, print: true, fatal: false },
        WakeOutcome::NotificationsReady => CyclePlan { drain: true, print: true, fatal: false },
        WakeOutcome::WaitFailed => CyclePlan { drain: false, print: false, fatal: true },
    }
}

/// Decides what one cycle does after a wake.
pub fn cycle_plan(o: &WakeOutcome) -> (p: CyclePlan)
    ensures
        p == plan_for(*o),
{
    match o {
        WakeOutcome::TimedOut => CyclePlan { drain: false, print: true, fatal: false },
        WakeOutcome::NotificationsReady => CyclePlan { drain: true, print: true, fatal: false },
        WakeOutcome::WaitFailed => CyclePlan { drain: false, print: false, fatal: true },
    }
}

/// How many events stay queued after a cycle: a draining cycle empties the
/// queue no matter how many events a burst left in it.
pub open spec fn queued_after(p: CyclePlan, queued: nat) -> nat {
    if p.drain {
        0
    } else {
        queued
    }
}

/// How many status lines a cycle prints.
pub open spec fn lines_printed(p: CyclePlan) -> nat {
    if p.print {
        1
    } else {
        0
    }
}

/// A burst of rapid modifications coalesces: however many notifications a
/// burst queued before the wake, the cycle drains them all and prints exactly
/// one status line for the whole burst.
pub proof fn lemma_burst_coalesces(queued: nat)
    requires
        queued >= 1,
    ensures
        queued_after(plan_for(WakeOutcome::NotificationsReady), queued) == 0,
        lines_printed(plan_for(WakeOutcome::NotificationsReady)) == 1,
{
}

} // verus!
