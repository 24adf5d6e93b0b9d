use vstd::prelude::*;

use crate::cooldown::{lemma_calc_capped, spec_calc, Backoff};
use crate::data_uploads::queue::{
    clamp_deadline, effective_deadline, first_ready, lemma_min_deadline_is_least,
    lemma_reset_bounds_deadlines, min_deadline, without_id, Queue, QueueEntry, QueueEntryView,
};
use crate::data_uploads::retention;
use crate::data_uploads::upload::job::{Job, JobView};
use crate::time::{checked_add_secs, nanos_of, valid_delta, valid_instant, NANOS_PER_SEC};

verus! {

/// Tuning of the uploader. Durations are whole seconds.
#[derive(Debug, Clone, Copy)]
pub struct UploaderOptions {
    /// Maximum number of queued jobs; a job being uploaded stays queued until the
    /// backend confirms it.
    pub queue_capacity: usize,
    /// Total counted executor attempts per job before it is dropped.
    pub attempts: u32,
    /// Backoff between counted attempts.
    pub backoff: Backoff,
    /// Fixed floor of the per-attempt upload deadline.
    pub attempt_timeout_floor_secs: u64,
    /// Minimum-throughput assumption scaling the per-attempt deadline with size.
    pub attempt_timeout_bytes_per_sec: u64,
    /// A job first observed longer ago than this is dropped even when every failure
    /// so far was a network error.
    pub max_job_age_secs: i64,
}

/// `size` divided by `per`, rounded up.
pub open spec fn div_ceil(size: int, per: int) -> int {
    size / per + if size % per == 0 {
        0int
    } else {
        1int
    }
}

/// The deadline of one upload attempt of `size` bytes: the floor plus the time to
/// send `size` bytes at the assumed throughput (at least one byte per second),
/// saturating at the largest representable number of seconds.
pub open spec fn spec_attempt_deadline(options: UploaderOptions, size: u64) -> int {
    let bps = if options.attempt_timeout_bytes_per_sec == 0 {
        1int
    } else {
        options.attempt_timeout_bytes_per_sec as int
    };
    let total = options.attempt_timeout_floor_secs + div_ceil(size as int, bps);
    if total > u64::MAX {
        u64::MAX as int
    } else {
        total
    }
}

impl UploaderOptions {
    pub fn default() -> (r: Self)
        ensures
            r.queue_capacity == 1024,
            r.attempts == 30,
            r.backoff == (Backoff { base_secs: 10, growth_factor: 2, max_secs: 3600 }),
            r.attempt_timeout_floor_secs == 120,
            r.attempt_timeout_bytes_per_sec == 65536,
            r.max_job_age_secs == 604800,
    {
        UploaderOptions {
            queue_capacity: 1024,
            attempts: 30,
            backoff: Backoff { base_secs: 10, growth_factor: 2, max_secs: 3600 },
            attempt_timeout_floor_secs: 120,
            attempt_timeout_bytes_per_sec: 64 * 1024,
            max_job_age_secs: 7 * 24 * 60 * 60,
        }
    }

    /// Deadline, in seconds, for one upload attempt of `size` bytes.
    pub fn attempt_deadline(&self, size: u64) -> (r: u64)
        ensures
            r == spec_attempt_deadline(*self, size),
    {
        let bps: u64 = if self.attempt_timeout_bytes_per_sec < 1 {
            1
        } else {
            self.attempt_timeout_bytes_per_sec
        };
        let q: u64 = size / bps;
        let per: u64 = if size % bps == 0 {
            q
        } else {
            assert(q < size || size == 0) by (nonlinear_arith)
                requires
                    q == size / bps,
                    bps >= 1,
                    size % bps != 0,
            ;
            q + 1
        };
        self.attempt_timeout_floor_secs.saturating_add(per)
    }
}

/// `x`, or zero when it is negative.
pub open spec fn nonneg(x: int) -> int {
    if x < 0 {
        0
    } else {
        x
    }
}

/// Instants `now` plus each backoff wait the options can produce are representable.
pub open spec fn waits_fit(options: UploaderOptions, now: int) -> bool {
    &&& valid_instant(now)
    &&& valid_delta(nonneg(options.backoff.base_secs as int))
    &&& valid_instant(now + nanos_of(nonneg(options.backoff.base_secs as int)))
    &&& valid_delta(nonneg(options.backoff.max_secs as int))
    &&& valid_instant(now + nanos_of(nonneg(options.backoff.max_secs as int)))
}

/// What the upload loop does next.
#[derive(Debug)]
pub enum RunStep {
    /// Attempt this entry, which stays queued until it is resolved.
    Attempt(QueueEntry<Job>),
    /// The queue is empty: wait for the next command.
    AwaitCommand,
    /// Every entry is waiting out its backoff: sleep this many nanoseconds (or until
    /// a command arrives) and look again.
    Wait(u128),
}

/// Pick the loop's next step at `now`: the first ready entry; else, for an empty
/// queue, waiting for a command; else, after pulling every deadline back to at most
/// `now` plus the longest backoff, sleeping until the earliest deadline.
pub fn next_step(queue: &mut Queue<Job>, options: &UploaderOptions, now: i128) -> (r: RunStep)
    requires
        waits_fit(*options, now as int),
    ensures
        final(queue)@.capacity == old(queue)@.capacity,
        match first_ready::<Job>(old(queue)@.entries, now as int) {
            Some(i) => {
                &&& r matches RunStep::Attempt(e) && e@ == old(queue)@.entries[i]
                &&& final(queue)@.entries == old(queue)@.entries
            },
            None => if old(queue)@.entries.len() == 0 {
                &&& r is AwaitCommand
                &&& final(queue)@.entries == old(queue)@.entries
            } else {
                &&& final(queue)@.entries == old(queue)@.entries.map_values(
                    |e: QueueEntryView<JobView>|
                        clamp_deadline(e, (now + nanos_of(nonneg(options.backoff.max_secs as int))) as i128),
                )
                &&& r matches RunStep::Wait(w) && w == nonneg(
                    min_deadline(final(queue)@.entries) - now,
                ) && w <= nanos_of(nonneg(options.backoff.max_secs as int))
            },
        },
{
    match queue.next_ready(now) {
        Some(e) => RunStep::Attempt(e),
        None => {
            if queue.is_empty() {
                return RunStep::AwaitCommand;
            }
            let max_wait: i64 = if options.backoff.max_secs < 0 {
                0
            } else {
                options.backoff.max_secs
            };
            let horizon = checked_add_secs(now, max_wait).unwrap();
            let ghost before = queue@.entries;
            queue.reset_invalid_deadlines(horizon);
            proof {
                lemma_reset_bounds_deadlines(before, horizon);
                lemma_min_deadline_is_least(queue@.entries);
                let s = queue@.entries;
                assert(effective_deadline(s[0]) <= horizon);
            }
            let wait: u128 = match queue.earliest_next_attempt() {
                Some(at) => if at > now {
                    (at - now) as u128
                } else {
                    0
                },
                None => 0,
            };
            RunStep::Wait(wait)
        },
    }
}

/// How a failed attempt was resolved.
#[derive(Debug, Clone, Copy, PartialEq, Eq, Structural)]
pub enum FailureAction {
    /// Only network failures so far, but the file was first observed too long ago.
    DroppedAged,
    /// The backend rejected the upload; retrying cannot help.
    DroppedTerminal,
    /// The attempt budget is spent.
    DroppedExhausted,
    /// Requeued at the tail, eligible again after this many seconds.
    Retrying(i64),
}

/// `e` with its attempt count and next deadline replaced.
pub open spec fn restamped(e: QueueEntryView<JobView>, attempts: u32, at: int) -> QueueEntryView<
    JobView,
> {
    QueueEntryView { attempts, next_attempt_at: Some(at as i128), ..e }
}

/// What a failed attempt of `e` at `now` leads to. A network failure does not count
/// against the attempt budget: the job is dropped once it is older than the age
/// backstop, else retried after the base backoff. Any other failure counts: the job
/// is dropped when the failure is terminal or the budget is spent, else retried
/// after the growing backoff for its count.
pub open spec fn spec_failure_action(
    options: UploaderOptions,
    e: QueueEntryView<JobView>,
    is_network: bool,
    is_terminal: bool,
    now: int,
) -> FailureAction {
    if is_network {
        if now - e.job.first_observed_at >= nanos_of(options.max_job_age_secs as int) {
            FailureAction::DroppedAged
        } else {
            FailureAction::Retrying(nonneg(options.backoff.base_secs as int) as i64)
        }
    } else if is_terminal {
        FailureAction::DroppedTerminal
    } else if e.attempts + 1 >= options.attempts {
        FailureAction::DroppedExhausted
    } else {
        FailureAction::Retrying(nonneg(spec_calc(options.backoff, e.attempts as nat)) as i64)
    }
}

/// Resolve a failed attempt of `entry` at `now`: drop it from the queue, or requeue
/// it at the tail with its (possibly bumped) attempt count and a new deadline.
pub fn on_failure(
    queue: &mut Queue<Job>,
    options: &UploaderOptions,
    entry: QueueEntry<Job>,
    is_network: bool,
    is_terminal: bool,
    now: i128,
) -> (r: FailureAction)
    requires
        waits_fit(*options, now as int),
        !is_network ==> entry.attempts < u32::MAX,
    ensures
        r == spec_failure_action(*options, entry@, is_network, is_terminal, now as int),
        final(queue)@.capacity == old(queue)@.capacity,
        match r {
            FailureAction::Retrying(wait) => {
                let attempts = if is_network {
                    entry.attempts
                } else {
                    (entry.attempts + 1) as u32
                };
                &&& 0 <= wait <= nonneg(options.backoff.max_secs as int) || (is_network && wait
                    == nonneg(options.backoff.base_secs as int))
                &&& final(queue)@.entries == without_id(old(queue)@.entries, entry.id).push(
                    restamped(entry@, attempts, now + nanos_of(wait as int)),
                )
            },
            _ => final(queue)@.entries == without_id(old(queue)@.entries, entry.id),
        },
{
    if is_network {
        let first = entry.first_observed_at();
        let aged = match now.checked_sub(first) {
            Some(age) => age >= (options.max_job_age_secs as i128) * NANOS_PER_SEC,
            None => first < 0,
        };
        if aged {
            queue.remove(entry.id);
            return FailureAction::DroppedAged;
        }
        let wait: i64 = if options.backoff.base_secs < 0 {
            0
        } else {
            options.backoff.base_secs
        };
        let attempts = entry.attempts;
        requeue_after(queue, entry, attempts, now, wait);
        return FailureAction::Retrying(wait);
    }
    let attempts = entry.attempts + 1;
    if is_terminal {
        queue.remove(entry.id);
        return FailureAction::DroppedTerminal;
    }
    if attempts >= options.attempts {
        queue.remove(entry.id);
        return FailureAction::DroppedExhausted;
    }
    let c = crate::cooldown::calc(&options.backoff, attempts - 1);
    proof {
        lemma_calc_capped(options.backoff, (attempts - 1) as nat);
    }
    let wait: i64 = if c < 0 {
        0
    } else {
        c
    };
    requeue_after(queue, entry, attempts, now, wait);
    FailureAction::Retrying(wait)
}

impl QueueEntry<Job> {
    pub fn first_observed_at(&self) -> (r: i128)
        ensures
            r == self.job.first_observed_at,
    {
        self.job.first_observed_at
    }
}

/// Requeue `entry` at the tail with `attempts` and eligible again `wait` seconds
/// after `now`.
fn requeue_after(queue: &mut Queue<Job>, entry: QueueEntry<Job>, attempts: u32, now: i128, wait: i64)
    requires
        valid_instant(now as int),
        valid_delta(wait as int),
        valid_instant(now + nanos_of(wait as int)),
    ensures
        final(queue)@.capacity == old(queue)@.capacity,
        final(queue)@.entries == without_id(old(queue)@.entries, entry.id).push(
            restamped(entry@, attempts, now + nanos_of(wait as int)),
        ),
{
    let at = checked_add_secs(now, wait).unwrap();
    let stamped = QueueEntry { attempts, next_attempt_at: Some(at), ..entry };
    queue.requeue(stamped);
}

/// The retention job that a confirmed upload of `job` at `now` hands to the
/// deleter, when the job's rule keeps files only for a while.
pub fn delete_job_for(job: &Job, now: i128) -> (r: Option<retention::Job>)
    ensures
        match job.retention {
            None => r is None,
            Some(ret) => r matches Some(d) && d@ == (retention::job::JobView {
                file: job.file.path@,
                size: job.size,
                digest: job.digest@,
                mtime: job.mtime,
                first_observed_at: job.first_observed_at,
                last_observed_at: now,
                ttl_secs: ret.ttl_secs,
                file_rule_id: job.file_rule_id@,
                deployment_id: job.deployment_id@,
            }),
        },
{
    match job.retention {
        None => None,
        Some(ret) => Some(
            retention::Job {
                file: job.file.duplicate(),
                size: job.size,
                digest: job.digest.clone(),
                mtime: job.mtime,
                first_observed_at: job.first_observed_at,
                last_observed_at: now,
                ttl_secs: ret.ttl_secs,
                file_rule_id: job.file_rule_id.clone(),
                deployment_id: job.deployment_id.clone(),
            },
        ),
    }
}


/// A counted failure that is neither terminal nor the last one the budget allows
/// requeues the upload after the exponential backoff for the attempts made so far:
/// `min(base * growth^attempts, max)` seconds (each step saturating, never negative).
/// Below the cap that is exactly `base * growth^attempts`, so the wait after one more
/// failure is `growth` times longer.
pub proof fn lemma_counted_failure_backs_off_exponentially(
    options: UploaderOptions,
    e: QueueEntryView<JobView>,
    now: int,
)
    requires
        e.attempts + 1 < options.attempts,
    ensures
        spec_failure_action(options, e, false, false, now) == FailureAction::Retrying(
            nonneg(spec_calc(options.backoff, e.attempts as nat)) as i64,
        ),
        options.backoff.base_secs >= 0 && options.backoff.growth_factor >= 1 && crate::cooldown::power(
            options.backoff.growth_factor as int,
            e.attempts as nat + 1,
        ) <= i64::MAX && options.backoff.base_secs * crate::cooldown::power(
            options.backoff.growth_factor as int,
            e.attempts as nat + 1,
        ) <= options.backoff.max_secs ==> spec_failure_action(options, e, false, false, now)
            == FailureAction::Retrying(
            (options.backoff.base_secs * crate::cooldown::power(
                options.backoff.growth_factor as int,
                e.attempts as nat,
            )) as i64,
        ),
{
    if options.backoff.base_secs >= 0 && options.backoff.growth_factor >= 1
        && crate::cooldown::power(options.backoff.growth_factor as int, e.attempts as nat + 1)
        <= i64::MAX && options.backoff.base_secs * crate::cooldown::power(
        options.backoff.growth_factor as int,
        e.attempts as nat + 1,
    ) <= options.backoff.max_secs {
        crate::cooldown::lemma_calc_below_cap_is_exponential(options.backoff, e.attempts as nat);
    }
}

/// How each kind of failure is resolved: a terminal counted failure drops the upload,
/// one that spends the budget drops it, a network failure drops it only past the age
/// backstop and otherwise waits the base backoff; only a counted failure within the
/// budget waits the growing backoff.
pub proof fn lemma_failure_kinds(
    options: UploaderOptions,
    e: QueueEntryView<JobView>,
    is_terminal: bool,
    now: int,
)
    ensures
        spec_failure_action(options, e, false, true, now) == FailureAction::DroppedTerminal,
        e.attempts + 1 >= options.attempts ==> spec_failure_action(options, e, false, false, now)
            == FailureAction::DroppedExhausted,
        now - e.job.first_observed_at >= options.max_job_age_secs * 1_000_000_000
            ==> spec_failure_action(options, e, true, is_terminal, now)
            == FailureAction::DroppedAged,
        now - e.job.first_observed_at < options.max_job_age_secs * 1_000_000_000
            ==> spec_failure_action(options, e, true, is_terminal, now) == FailureAction::Retrying(
            nonneg(options.backoff.base_secs as int) as i64,
        ),
{
}

} // verus!
