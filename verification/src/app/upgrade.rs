use vstd::prelude::*;

use crate::cooldown::{spec_calc, Backoff};
use crate::text::str_equals;

verus! {

/// The backoff between attempts to reset the agent's state for a new version: one
/// second, doubling, up to a minute.
pub open spec fn spec_upgrade_backoff() -> Backoff {
    Backoff { base_secs: 1, growth_factor: 2, max_secs: 60 }
}

pub fn upgrade_backoff() -> (r: Backoff)
    ensures
        r == spec_upgrade_backoff(),
{
    Backoff { base_secs: 1, growth_factor: 2, max_secs: 60 }
}

/// Whether the agent's state must be reset: unless the version marker names the
/// running version. An absent or unreadable marker (`None`) counts as a change.
pub fn needs_upgrade(prev_version: Option<&str>, cur_version: &str) -> (r: bool)
    ensures
        r == match prev_version {
            Some(p) => p@ != cur_version@,
            None => true,
        },
{
    match prev_version {
        Some(p) => !str_equals(p, cur_version),
        None => true,
    }
}

/// After a failed reset with `err_streak` failures before it: the new streak (one
/// more, saturating) and how many seconds to wait before the next attempt.
pub fn next_retry(err_streak: u32) -> (r: (u32, u64))
    ensures
        r.0 == if err_streak == u32::MAX {
            u32::MAX
        } else {
            (err_streak + 1) as u32
        },
        r.1 == spec_calc(spec_upgrade_backoff(), r.0 as nat),
{
    let streak = err_streak.saturating_add(1);
    let backoff = upgrade_backoff();
    let wait = crate::cooldown::calc(&backoff, streak);
    proof {
        crate::cooldown::lemma_calc_capped(backoff, streak as nat);
        crate::cooldown::lemma_calc_monotone(backoff, 0, streak as nat);
    }
    (streak, wait as u64)
}

} // verus!
