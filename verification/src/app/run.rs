use vstd::prelude::*;

verus! {

/// What the idle-timeout watcher concludes from one reading of the activity tracker.
#[derive(Debug, Clone, Copy, PartialEq, Eq, Structural)]
pub enum IdleCheck {
    /// The last activity is recent enough: keep running.
    Active,
    /// Longer than the idle timeout has passed since the last activity: shut down.
    TimedOut,
    /// The clock reads earlier than the last activity: the reading is ignored.
    ClockBehind,
}

/// Nanoseconds in a second.
pub const NANOS_PER_SEC: u128 = 1_000_000_000;

/// The verdict for a last activity at `last_activity_secs` (Unix seconds) seen at
/// `now_nanos` (Unix nanoseconds) against an idle timeout of `idle_timeout_secs`: timed
/// out only when strictly more than the timeout has passed.
pub open spec fn spec_idle_check(last_activity_secs: u64, now_nanos: u128, idle_timeout_secs: u64) -> IdleCheck {
    let last = last_activity_secs * NANOS_PER_SEC;
    if now_nanos < last {
        IdleCheck::ClockBehind
    } else if now_nanos - last > idle_timeout_secs * NANOS_PER_SEC {
        IdleCheck::TimedOut
    } else {
        IdleCheck::Active
    }
}

/// One decision of the idle-timeout watcher.
pub fn idle_check(last_activity_secs: u64, now_nanos: u128, idle_timeout_secs: u64) -> (r: IdleCheck)
    ensures
        r == spec_idle_check(last_activity_secs, now_nanos, idle_timeout_secs),
{
    assert(last_activity_secs * NANOS_PER_SEC <= u64::MAX * NANOS_PER_SEC) by (nonlinear_arith);
    assert(idle_timeout_secs * NANOS_PER_SEC <= u64::MAX * NANOS_PER_SEC) by (nonlinear_arith);
    let last: u128 = (last_activity_secs as u128) * NANOS_PER_SEC;
    let timeout: u128 = (idle_timeout_secs as u128) * NANOS_PER_SEC;
    if now_nanos < last {
        IdleCheck::ClockBehind
    } else if now_nanos - last > timeout {
        IdleCheck::TimedOut
    } else {
        IdleCheck::Active
    }
}

} // verus!
