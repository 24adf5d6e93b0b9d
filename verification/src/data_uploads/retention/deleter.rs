use vstd::prelude::*;

use crate::data_uploads::queue::{
    count_ready, entry_ready, entry_views, without_id, Queue, QueueEntry, QueueEntryView, QueueSnapshot,
};
use crate::data_uploads::retention::errors::DeleteErr;
use crate::data_uploads::retention::job::{Job, JobView};
use crate::filesys::{FileSysErr, IoErrorKind};
use crate::text::str_equals;
use crate::time::Timestamp;

verus! {

/// Default number of queued retention jobs.
pub const DEFAULT_QUEUE_CAPACITY: usize = 4096;

/// Default number of counted sweep attempts per job.
pub const DEFAULT_ATTEMPTS: u32 = 10;

/// Outcome of considering one queued job during a sweep.
#[derive(Debug, Clone, Copy, PartialEq, Eq, Structural)]
pub enum SweepOutcome {
    /// A failure that might resolve on its own; consumes one attempt.
    CountedRetry,
    /// A failure that will never resolve for this path; drop at once.
    TerminalFailure,
    /// The file was deleted.
    Deleted,
    /// The file was already gone.
    AlreadyGone,
    /// The file on disk is no longer the uploaded one; drop without deleting.
    Changed,
}

/// The `io::ErrorKind` behind a filesystem error, when it carries one.
pub open spec fn spec_io_kind(err: FileSysErr) -> Option<IoErrorKind> {
    match err {
        FileSysErr::FileMetadataErr { source, .. } => Some(source.kind),
        FileSysErr::OpenFileErr { source, .. } => Some(source.kind),
        FileSysErr::ReadFileErr { source, .. } => Some(source.kind),
        FileSysErr::DeleteFileErr { source, .. } => Some(source.kind),
        _ => None,
    }
}

pub fn io_kind(err: &FileSysErr) -> (r: Option<IoErrorKind>)
    ensures
        r == spec_io_kind(*err),
{
    match err {
        FileSysErr::FileMetadataErr { source, .. } => Some(source.kind),
        FileSysErr::OpenFileErr { source, .. } => Some(source.kind),
        FileSysErr::ReadFileErr { source, .. } => Some(source.kind),
        FileSysErr::DeleteFileErr { source, .. } => Some(source.kind),
        _ => None,
    }
}

/// Failures that cannot succeed on a later sweep for the same path are terminal;
/// everything else, unclassifiable errors included, is counted.
pub open spec fn spec_classify(err: FileSysErr) -> SweepOutcome {
    match spec_io_kind(err) {
        Some(IoErrorKind::PermissionDenied) | Some(IoErrorKind::ReadOnlyFilesystem) | Some(
            IoErrorKind::IsADirectory,
        ) | Some(IoErrorKind::NotADirectory) | Some(IoErrorKind::InvalidFilename) => {
            SweepOutcome::TerminalFailure
        },
        _ => SweepOutcome::CountedRetry,
    }
}

pub fn classify(err: &FileSysErr) -> (r: SweepOutcome)
    ensures
        r == spec_classify(*err),
{
    match io_kind(err) {
        Some(IoErrorKind::PermissionDenied) | Some(IoErrorKind::ReadOnlyFilesystem) | Some(
            IoErrorKind::IsADirectory,
        ) | Some(IoErrorKind::NotADirectory) | Some(IoErrorKind::InvalidFilename) => {
            SweepOutcome::TerminalFailure
        },
        _ => SweepOutcome::CountedRetry,
    }
}

/// What a sweep learns of a file on disk: its size and modification time.
#[derive(Debug, Clone, Copy, PartialEq, Eq, Structural)]
pub struct FileMeta {
    pub len: u64,
    pub mtime: Timestamp,
}

/// The filesystem work a sweep of one job asks for next.
#[derive(Debug, Clone, Copy, PartialEq, Eq, Structural)]
pub enum Probe {
    Stat,
    Hash,
    Delete,
}

/// The result of a probe.
#[derive(Debug)]
pub enum ProbeResult {
    Stat(Result<FileMeta, FileSysErr>),
    Hash(Result<String, FileSysErr>),
    Delete(Result<(), FileSysErr>),
}

/// The next move of a sweep of one job: more filesystem work, or its outcome.
#[derive(Debug, Clone, Copy, PartialEq, Eq, Structural)]
pub enum SweepStep {
    Perform(Probe),
    Finish(SweepOutcome),
}

/// A failed probe: a missing file is already gone, anything else is classified.
pub open spec fn failed_probe(err: FileSysErr) -> SweepOutcome {
    match err {
        FileSysErr::PathDoesNotExistErr { .. } => SweepOutcome::AlreadyGone,
        _ => spec_classify(err),
    }
}

/// The sweep of a selected job deletes the file only when it is still the uploaded
/// one: same size, and same mtime or else same digest. It starts with a stat; a
/// size mismatch is a change; a matching mtime goes straight to the delete, another
/// mtime to a hash; a matching digest goes to the delete, another is a change; a
/// delete that succeeds is `Deleted`.
pub open spec fn spec_sweep_step(job: JobView, result: ProbeResult) -> SweepStep {
    match result {
        ProbeResult::Stat(Ok(meta)) => if meta.len != job.size {
            SweepStep::Finish(SweepOutcome::Changed)
        } else if meta.mtime == job.mtime {
            SweepStep::Perform(Probe::Delete)
        } else {
            SweepStep::Perform(Probe::Hash)
        },
        ProbeResult::Hash(Ok(digest)) => if digest@ == job.digest {
            SweepStep::Perform(Probe::Delete)
        } else {
            SweepStep::Finish(SweepOutcome::Changed)
        },
        ProbeResult::Delete(Ok(())) => SweepStep::Finish(SweepOutcome::Deleted),
        ProbeResult::Stat(Err(e)) => SweepStep::Finish(failed_probe(e)),
        ProbeResult::Hash(Err(e)) => SweepStep::Finish(failed_probe(e)),
        ProbeResult::Delete(Err(e)) => SweepStep::Finish(failed_probe(e)),
    }
}

fn probe_failure(err: &FileSysErr) -> (r: SweepOutcome)
    ensures
        r == failed_probe(*err),
{
    match err {
        FileSysErr::PathDoesNotExistErr { .. } => SweepOutcome::AlreadyGone,
        _ => classify(err),
    }
}

/// Decide the next move of the sweep of `job` from the result of its last probe.
/// The first probe of every job is a stat.
pub fn sweep_step(job: &Job, result: &ProbeResult) -> (r: SweepStep)
    ensures
        r == spec_sweep_step(job@, *result),
{
    match result {
        ProbeResult::Stat(Ok(meta)) => {
            if meta.len != job.size {
                SweepStep::Finish(SweepOutcome::Changed)
            } else if meta.mtime == job.mtime {
                SweepStep::Perform(Probe::Delete)
            } else {
                SweepStep::Perform(Probe::Hash)
            }
        },
        ProbeResult::Hash(Ok(digest)) => {
            if str_equals(digest.as_str(), job.digest.as_str()) {
                SweepStep::Perform(Probe::Delete)
            } else {
                SweepStep::Finish(SweepOutcome::Changed)
            }
        },
        ProbeResult::Delete(Ok(())) => SweepStep::Finish(SweepOutcome::Deleted),
        ProbeResult::Stat(Err(e)) => SweepStep::Finish(probe_failure(e)),
        ProbeResult::Hash(Err(e)) => SweepStep::Finish(probe_failure(e)),
        ProbeResult::Delete(Err(e)) => SweepStep::Finish(probe_failure(e)),
    }
}

/// The retention deleter's state: its job queue and the attempt budget per job.
pub struct SingleThreadDeleter {
    pub queue: Queue<Job>,
    pub attempts: u32,
}

/// What the resolution of a swept job does to its entry: drop it, or, for a counted
/// retry within the budget, requeue it at the tail with one more attempt.
pub open spec fn spec_resolved(
    entries: Seq<QueueEntryView<JobView>>,
    entry: QueueEntryView<JobView>,
    outcome: SweepOutcome,
    budget: u32,
) -> Seq<QueueEntryView<JobView>> {
    if outcome == SweepOutcome::CountedRetry && entry.attempts + 1 < budget {
        without_id(entries, entry.id).push(
            QueueEntryView { attempts: (entry.attempts + 1) as u32, ..entry },
        )
    } else {
        without_id(entries, entry.id)
    }
}

/// The entries of `s` ready at `now`, in queue order.
pub open spec fn ready_of(s: Seq<QueueEntryView<JobView>>, now: int) -> Seq<QueueEntryView<JobView>>
    decreases s.len(),
{
    if s.len() == 0 {
        s
    } else if entry_ready::<Job>(s.last(), now) {
        ready_of(s.drop_last(), now).push(s.last())
    } else {
        ready_of(s.drop_last(), now)
    }
}

/// The entries of `s` not ready at `now`, in queue order.
pub open spec fn idle_of(s: Seq<QueueEntryView<JobView>>, now: int) -> Seq<QueueEntryView<JobView>>
    decreases s.len(),
{
    if s.len() == 0 {
        s
    } else if entry_ready::<Job>(s.last(), now) {
        idle_of(s.drop_last(), now)
    } else {
        idle_of(s.drop_last(), now).push(s.last())
    }
}

/// `e` with one more counted attempt.
pub open spec fn bumped(e: QueueEntryView<JobView>) -> QueueEntryView<JobView> {
    QueueEntryView { attempts: (e.attempts + 1) as u32, ..e }
}

/// The visited entries `ready` that a pass keeps, given the outcome of each: those
/// whose counted retry stays within `budget`, with one more attempt, in order.
pub open spec fn retried_of(
    ready: Seq<QueueEntryView<JobView>>,
    outcomes: Seq<SweepOutcome>,
    budget: u32,
) -> Seq<QueueEntryView<JobView>>
    decreases ready.len(),
{
    if ready.len() == 0 {
        ready
    } else {
        let prev = retried_of(ready.drop_last(), outcomes.drop_last(), budget);
        let e = ready.last();
        if outcomes.last() == SweepOutcome::CountedRetry && e.attempts + 1 < budget {
            prev.push(bumped(e))
        } else {
            prev
        }
    }
}

impl SingleThreadDeleter {
    /// A deleter seeded with a persisted backlog, if any; capacity gates only new
    /// enqueues.
    pub fn new(queue_capacity: usize, snapshot: Option<QueueSnapshot<Job>>, attempts: u32) -> (r:
        Self)
        ensures
            r.queue@.capacity == queue_capacity,
            r.attempts == attempts,
            match snapshot {
                Some(s) => r.queue@.entries == crate::data_uploads::queue::entry_views(
                    s.entries@,
                ),
                None => r.queue@.entries.len() == 0,
            },
    {
        let queue = match snapshot {
            Some(s) => Queue::from_snapshot(queue_capacity, s),
            None => Queue::new(queue_capacity),
        };
        SingleThreadDeleter { queue, attempts }
    }

    pub fn len(&self) -> (r: usize)
        ensures
            r == self.queue@.entries.len(),
    {
        self.queue.len()
    }

    /// Queue a job under `id`, which no queued entry carries, or refuse it when the
    /// queue is full.
    pub fn enqueue(&mut self, job: Job, id: u128) -> (r: Result<(), DeleteErr>)
        requires
            crate::data_uploads::queue::id_unused(old(self).queue@.entries, id),
        ensures
            final(self).attempts == old(self).attempts,
            final(self).queue@.capacity == old(self).queue@.capacity,
            old(self).queue@.entries.len() >= old(self).queue@.capacity ==> {
                &&& r matches Err(DeleteErr::QueueFullErr(e))
                &&& e.label@ == "delete"@
                &&& e.capacity == old(self).queue@.capacity
                &&& e.name@ == job.file.path@
                &&& final(self).queue@.entries == old(self).queue@.entries
            },
            old(self).queue@.entries.len() < old(self).queue@.capacity ==> {
                &&& r is Ok
                &&& final(self).queue@.entries.drop_last() == old(self).queue@.entries
                &&& final(self).queue@.entries.len() == old(self).queue@.entries.len() + 1
                &&& final(self).queue@.entries.last().id == id
                &&& final(self).queue@.entries.last().job == job@
                &&& final(self).queue@.entries.last().attempts == 0
                &&& final(self).queue@.entries.last().next_attempt_at is None
            },
    {
        match self.queue.enqueue(job, id) {
            Ok(()) => Ok(()),
            Err(e) => Err(DeleteErr::QueueFullErr(e)),
        }
    }

    /// The entries that a sweep pass at `now` visits: copies of every entry ready then,
    /// each once, in queue order. The queue itself is left as it is.
    pub fn pass_entries(&self, now: i128) -> (r: Vec<QueueEntry<Job>>)
        ensures
            entry_views(r@) == ready_of(self.queue@.entries, now as int),
    {
        let snap = self.queue.snapshot();
        let ghost s = self.queue@.entries;
        let entries = snap.entries;
        let mut out: Vec<QueueEntry<Job>> = Vec::new();
        let n = entries.len();
        let mut i: usize = 0;
        while i < n
            invariant
                n == entries@.len(),
                s == entry_views(entries@),
                i <= n,
                entry_views(out@) == ready_of(s.take(i as int), now as int),
            decreases n - i,
        {
            proof {
                assert(s.take(i as int + 1).drop_last() =~= s.take(i as int));
                assert(s.take(i as int + 1).last() == entries@[i as int]@);
            }
            if Queue::<Job>::is_ready(&entries[i], now) {
                let ghost before = out@;
                out.push(entries[i].duplicate());
                assert(entry_views(out@) =~= entry_views(before).push(entries@[i as int]@));
            }
            i = i + 1;
        }
        assert(s.take(n as int) =~= s);
        out
    }

    /// End a sweep pass at `now` whose visits, in the order of `pass_entries`, came to
    /// `outcomes`. Every entry not ready stays where it was, in order; each visited
    /// entry is handed over exactly once: a counted retry within the attempt budget
    /// goes to the tail with one more attempt, and every other outcome drops it.
    pub fn finish_pass(&mut self, now: i128, outcomes: &Vec<SweepOutcome>)
        requires
            outcomes@.len() == ready_of(old(self).queue@.entries, now as int).len(),
            forall|i: int|
                0 <= i < ready_of(old(self).queue@.entries, now as int).len() ==> (#[trigger] ready_of(
                    old(self).queue@.entries,
                    now as int,
                )[i]).attempts < u32::MAX,
        ensures
            final(self).attempts == old(self).attempts,
            final(self).queue@.capacity == old(self).queue@.capacity,
            final(self).queue@.entries == idle_of(old(self).queue@.entries, now as int) + retried_of(
                ready_of(old(self).queue@.entries, now as int),
                outcomes@,
                old(self).attempts,
            ),
    {
        let ghost s = self.queue@.entries;
        let ghost rs = ready_of(s, now as int);
        let entries = self.queue.snapshot().entries;
        let mut kept: Vec<QueueEntry<Job>> = Vec::new();
        let mut retried: Vec<QueueEntry<Job>> = Vec::new();
        let n = entries.len();
        let mut i: usize = 0;
        let mut k: usize = 0;
        while i < n
            invariant
                n == entries@.len(),
                s == entry_views(entries@),
                rs == ready_of(s, now as int),
                outcomes@.len() == rs.len(),
                forall|j: int| 0 <= j < rs.len() ==> (#[trigger] rs[j]).attempts < u32::MAX,
                i <= n,
                k <= i,
                k == ready_of(s.take(i as int), now as int).len(),
                k <= rs.len(),
                forall|j: int| 0 <= j < k ==> ready_of(s.take(i as int), now as int)[j] == #[trigger] rs[j],
                entry_views(kept@) == idle_of(s.take(i as int), now as int),
                entry_views(retried@) == retried_of(
                    ready_of(s.take(i as int), now as int),
                    outcomes@.take(k as int),
                    self.attempts,
                ),
            decreases n - i,
        {
            proof {
                assert(s.take(i as int + 1).drop_last() =~= s.take(i as int));
                assert(s.take(i as int + 1).last() == entries@[i as int]@);
                lemma_ready_prefix(s, now as int, i as int + 1);
            }
            let e = entries[i].duplicate();
            if Queue::<Job>::is_ready(&entries[i], now) {
                let outcome = outcomes[k];
                proof {
                    let rp = ready_of(s.take(i as int + 1), now as int);
                    assert(rp.last() == e@);
                    assert(rp[k as int] == rs[k as int]);
                    assert(outcomes@.take(k as int + 1).drop_last() =~= outcomes@.take(k as int));
                    assert(rp.drop_last() == ready_of(s.take(i as int), now as int));
                }
                if outcome == SweepOutcome::CountedRetry && e.attempts + 1 < self.attempts {
                    let ghost before = retried@;
                    let b = QueueEntry { attempts: e.attempts + 1, ..e };
                    retried.push(b);
                    assert(entry_views(retried@) =~= entry_views(before).push(bumped(entries@[i as int]@)));
                }
                k = k + 1;
            } else {
                let ghost before = kept@;
                kept.push(e);
                assert(entry_views(kept@) =~= entry_views(before).push(entries@[i as int]@));
            }
            i = i + 1;
        }
        proof {
            assert(s.take(n as int) =~= s);
            assert(outcomes@.take(k as int) =~= outcomes@);
        }
        let ghost kv = entry_views(kept@);
        let ghost rv = entry_views(retried@);
        kept.append(&mut retried);
        assert(entry_views(kept@) =~= kv + rv);
        let capacity = self.queue.capacity();
        self.queue = Queue::from_snapshot(capacity, QueueSnapshot { entries: kept });
    }

    /// Resolve the sweep of `entry` with `outcome`: a counted retry within the attempt
    /// budget requeues it at the tail with one more attempt; every other outcome, and
    /// a retry that spends the budget, drops it.
    pub fn resolve(&mut self, entry: QueueEntry<Job>, outcome: SweepOutcome)
        requires
            entry.attempts < u32::MAX,
        ensures
            final(self).attempts == old(self).attempts,
            final(self).queue@.capacity == old(self).queue@.capacity,
            final(self).queue@.entries == spec_resolved(
                old(self).queue@.entries,
                entry@,
                outcome,
                old(self).attempts,
            ),
    {
        match outcome {
            SweepOutcome::CountedRetry => {
                let attempts = entry.attempts + 1;
                if attempts >= self.attempts {
                    self.queue.remove(entry.id);
                } else {
                    let bumped = QueueEntry { attempts, ..entry };
                    self.queue.requeue(bumped);
                }
            },
            _ => {
                self.queue.remove(entry.id);
            },
        }
    }
}

/// A sweep moves on to deleting a file only from a stat that found the recorded
/// size and mtime, or from a hash that found the recorded digest (after a stat that
/// found the recorded size but another mtime).
pub proof fn lemma_delete_only_unchanged(job: JobView, result: ProbeResult)
    ensures
        spec_sweep_step(job, result) == SweepStep::Perform(Probe::Delete) ==> match result {
            ProbeResult::Stat(Ok(meta)) => meta.len == job.size && meta.mtime == job.mtime,
            ProbeResult::Hash(Ok(digest)) => digest@ == job.digest,
            _ => false,
        },
        spec_sweep_step(job, result) == SweepStep::Perform(Probe::Hash) ==> (result matches ProbeResult::Stat(Ok(meta))
            && meta.len == job.size && meta.mtime != job.mtime),
{
}

/// Resolving a swept job that the queue holds never lengthens the queue: it drops the
/// job, or rotates it to the tail.
pub proof fn lemma_resolve_never_grows(
    entries: Seq<QueueEntryView<JobView>>,
    entry: QueueEntryView<JobView>,
    outcome: SweepOutcome,
    budget: u32,
)
    requires
        exists|j: int| 0 <= j < entries.len() && (#[trigger] entries[j]).id == entry.id,
    ensures
        spec_resolved(entries, entry, outcome, budget).len() <= entries.len(),
        !(outcome == SweepOutcome::CountedRetry && entry.attempts + 1 < budget) ==> spec_resolved(
            entries,
            entry,
            outcome,
            budget,
        ).len() == entries.len() - 1,
{
    crate::data_uploads::queue::lemma_requeue_preserves_len(entries, entry);
}


/// The ready entries of a prefix are a prefix of the ready entries.
proof fn lemma_ready_prefix(s: Seq<QueueEntryView<JobView>>, now: int, m: int)
    requires
        0 <= m <= s.len(),
    ensures
        ready_of(s.take(m), now).len() <= ready_of(s, now).len(),
        forall|j: int|
            0 <= j < ready_of(s.take(m), now).len() ==> #[trigger] ready_of(s.take(m), now)[j]
                == ready_of(s, now)[j],
    decreases s.len() - m,
{
    if m < s.len() {
        lemma_ready_prefix(s, now, m + 1);
        let a = ready_of(s.take(m), now);
        let b = ready_of(s.take(m + 1), now);
        assert(s.take(m + 1).drop_last() =~= s.take(m));
        assert(b.len() >= a.len());
        assert forall|j: int| 0 <= j < a.len() implies #[trigger] a[j] == ready_of(s, now)[j] by {
            assert(a[j] == b[j]);
        }
    } else {
        assert(s.take(m) =~= s);
    }
}

/// A sweep pass visits as many entries as are ready when it starts (the budget the
/// queue's `count_ready` gives), and every entry is either visited or left in place:
/// the ready and the idle entries together are the whole queue.
pub proof fn lemma_pass_partitions(s: Seq<QueueEntryView<JobView>>, now: int)
    ensures
        ready_of(s, now).len() == count_ready::<Job>(s, now),
        ready_of(s, now).len() + idle_of(s, now).len() == s.len(),
    decreases s.len(),
{
    if s.len() > 0 {
        lemma_pass_partitions(s.drop_last(), now);
    }
}

/// A sweep pass never lengthens the queue: what it keeps of the visited entries is at
/// most what it visited.
pub proof fn lemma_pass_never_grows(ready: Seq<QueueEntryView<JobView>>, outcomes: Seq<SweepOutcome>, budget: u32)
    ensures
        retried_of(ready, outcomes, budget).len() <= ready.len(),
    decreases ready.len(),
{
    if ready.len() > 0 {
        lemma_pass_never_grows(ready.drop_last(), outcomes.drop_last(), budget);
    }
}


/// A retention sweep deletes only the file that was uploaded. A stat'ed file of another
/// size is a change; of the same size and mtime it goes to the delete; of the same size
/// and another mtime it is hashed, and the delete follows only a matching digest. A
/// probe that succeeded never asks for a retry or reports a failure.
pub proof fn lemma_sweep_deletes_only_the_uploaded_file(
    job: JobView,
    meta: FileMeta,
    digest: String,
    result: ProbeResult,
)
    ensures
        meta.len != job.size ==> spec_sweep_step(job, ProbeResult::Stat(Ok(meta)))
            == SweepStep::Finish(SweepOutcome::Changed),
        meta.len == job.size && meta.mtime == job.mtime ==> spec_sweep_step(
            job,
            ProbeResult::Stat(Ok(meta)),
        ) == SweepStep::Perform(Probe::Delete),
        meta.len == job.size && meta.mtime != job.mtime ==> spec_sweep_step(
            job,
            ProbeResult::Stat(Ok(meta)),
        ) == SweepStep::Perform(Probe::Hash),
        spec_sweep_step(job, ProbeResult::Hash(Ok(digest))) == (if digest@ == job.digest {
            SweepStep::Perform(Probe::Delete)
        } else {
            SweepStep::Finish(SweepOutcome::Changed)
        }),
        spec_sweep_step(job, ProbeResult::Delete(Ok(()))) == SweepStep::Finish(
            SweepOutcome::Deleted,
        ),
        spec_sweep_step(job, result) == SweepStep::Perform(Probe::Delete) ==> (result matches ProbeResult::Stat(
            Ok(m),
        ) && m.len == job.size && m.mtime == job.mtime) || (result matches ProbeResult::Hash(Ok(d))
            && d@ == job.digest),
        (result is Stat && result->Stat_0 is Ok) || (result is Hash && result->Hash_0 is Ok) || (
        result is Delete && result->Delete_0 is Ok) ==> spec_sweep_step(job, result)
            != SweepStep::Finish(SweepOutcome::CountedRetry) && spec_sweep_step(job, result)
            != SweepStep::Finish(SweepOutcome::TerminalFailure),
{
}

} // verus!
