use vstd::prelude::*;

verus! {

/// Outcome of waiting for the device to be activated.
#[derive(Debug, Clone, Copy, PartialEq, Eq, Structural)]
pub enum WaitOutcome {
    /// The auth keys appeared on disk and the agent should proceed.
    Activated,
    /// A shutdown signal was received before activation completed.
    ShutdownRequested,
}

/// Whether `n` is a power of two.
pub open spec fn is_pow2(n: nat) -> bool
    decreases n,
{
    if n == 0 {
        false
    } else if n == 1 {
        true
    } else {
        n % 2 == 0 && is_pow2(n / 2)
    }
}

/// The heartbeat schedule of the activation wait loop: cycles 2, 4, 8, ..., 1024, then
/// every multiple of 1024.
pub open spec fn spec_should_log(cycle: nat) -> bool {
    if cycle < 2 {
        false
    } else if cycle <= 1024 {
        is_pow2(cycle)
    } else {
        cycle % 1024 == 0
    }
}

fn is_power_of_two(n: u64) -> (r: bool)
    ensures
        r == is_pow2(n as nat),
{
    if n == 0 {
        return false;
    }
    let mut m = n;
    while m > 1 && m % 2 == 0
        invariant
            m >= 1,
            is_pow2(m as nat) == is_pow2(n as nat),
        decreases m,
    {
        m = m / 2;
    }
    m == 1
}

/// Whether the wait loop should log a heartbeat at the given 1-based cycle (seconds
/// since the first "not yet activated" log). Cycle 0 is logged by the caller before the
/// loop and cycle 1 is silent.
pub fn should_log(cycle: u64) -> (r: bool)
    ensures
        r == spec_should_log(cycle as nat),
{
    if cycle < 2 {
        return false;
    }
    if cycle <= 1024 {
        return is_power_of_two(cycle);
    }
    cycle % 1024 == 0
}

/// What the activation wait loop does after a poll.
#[derive(Debug, Clone, Copy, PartialEq, Eq, Structural)]
pub enum ActivationPoll {
    /// The device is activated: stop waiting.
    Activated,
    /// Keep waiting; `log` says whether to log a heartbeat for this cycle, and
    /// `next_cycle` is the counter for the next poll.
    Waiting { log: bool, next_cycle: u64 },
}

/// Decide after the poll of `cycle` whether the wait is over, and if not whether to
/// log and what the next cycle is (the counter saturates).
pub fn after_poll(activated: bool, cycle: u64) -> (r: ActivationPoll)
    ensures
        activated ==> r == ActivationPoll::Activated,
        !activated ==> r == (ActivationPoll::Waiting {
            log: spec_should_log(cycle as nat),
            next_cycle: if cycle == u64::MAX {
                u64::MAX
            } else {
                (cycle + 1) as u64
            },
        }),
{
    if activated {
        return ActivationPoll::Activated;
    }
    ActivationPoll::Waiting { log: should_log(cycle), next_cycle: cycle.saturating_add(1) }
}

} // verus!
