use std::collections::VecDeque;
use vstd::prelude::*;

use crate::data_uploads::retention::deleter::FileMeta;
use crate::delete::errors::{DeleteErr, QueueFullErr};
use crate::delete::queue::{
    due_at_defined, effective_delay, DeleteQueueSnapshot, PendingDelete, PendingDeleteView,
};
use crate::filesys::FileSysErr;
use crate::text::str_equals;
use crate::time::nanos_of;

verus! {

/// Default number of pending deletions the queue admits.
pub const DEFAULT_QUEUE_CAPACITY: usize = 4096;

pub open spec fn pending_views(s: Seq<PendingDelete>) -> Seq<PendingDeleteView> {
    s.map_values(|p: PendingDelete| p@)
}

/// `s` without the records for `path`, in order.
pub open spec fn without_path(s: Seq<PendingDeleteView>, path: Seq<char>) -> Seq<PendingDeleteView>
    decreases s.len(),
{
    if s.len() == 0 {
        s
    } else {
        let rest = without_path(s.drop_last(), path);
        if s.last().file != path {
            rest.push(s.last())
        } else {
            rest
        }
    }
}

/// The elements of `s` whose flag in `keep` is set, in order.
pub open spec fn kept<A>(s: Seq<A>, keep: Seq<bool>) -> Seq<A>
    decreases s.len(),
{
    if s.len() == 0 || keep.len() == 0 {
        Seq::empty()
    } else {
        let rest = kept(s.drop_last(), keep.drop_last());
        if keep.last() {
            rest.push(s.last())
        } else {
            rest
        }
    }
}

/// No two records name the same path.
pub open spec fn unique_paths(s: Seq<PendingDeleteView>) -> bool {
    forall|i: int, j: int| 0 <= i < j < s.len() ==> s[i].file != s[j].file
}

pub struct DeleterView {
    pub entries: Seq<PendingDeleteView>,
    pub capacity: nat,
}

/// The deleter's queue of pending deletions, oldest first.
pub struct SingleThreadDeleter {
    entries: VecDeque<PendingDelete>,
    capacity: usize,
}

impl View for SingleThreadDeleter {
    type V = DeleterView;

    closed spec fn view(&self) -> DeleterView {
        DeleterView { entries: pending_views(self.entries@), capacity: self.capacity as nat }
    }
}

/// What the sweep of one record does next.
#[derive(Debug, Clone, Copy, PartialEq, Eq, Structural)]
pub enum SweepDecision {
    /// Leave the record for a later sweep.
    Keep,
    /// Drop the record (the file is gone, changed, or deleted).
    Drop,
    /// Stat the file.
    Stat,
    /// Delete the file.
    Delete,
}

/// The result of a probe of the file of a record.
#[derive(Debug)]
pub enum DeleteProbeResult {
    Stat(Result<FileMeta, FileSysErr>),
    Delete(Result<(), FileSysErr>),
}

/// A record whose file was stat'ed or deleted: a missing file or a file with another
/// size or mtime is dropped without deleting; a failed stat or delete keeps the
/// record for the next sweep; a matching file is deleted, and then dropped.
pub open spec fn spec_sweep_after(p: PendingDeleteView, result: DeleteProbeResult) -> SweepDecision {
    match result {
        DeleteProbeResult::Stat(Err(FileSysErr::PathDoesNotExistErr { .. })) => SweepDecision::Drop,
        DeleteProbeResult::Stat(Err(_)) => SweepDecision::Keep,
        DeleteProbeResult::Stat(Ok(meta)) => if meta.len != p.size || meta.mtime != p.mtime {
            SweepDecision::Drop
        } else {
            SweepDecision::Delete
        },
        DeleteProbeResult::Delete(Ok(())) => SweepDecision::Drop,
        DeleteProbeResult::Delete(Err(_)) => SweepDecision::Keep,
    }
}

/// The first move of the sweep of a record at `now`: keep it untouched while it is
/// not yet due, else stat its file.
pub fn sweep_start(p: &PendingDelete, now: i128) -> (r: SweepDecision)
    requires
        due_at_defined(p@),
    ensures
        r == if now < p.eligible_at + nanos_of(effective_delay(p.delete_delay_secs)) {
            SweepDecision::Keep
        } else {
            SweepDecision::Stat
        },
{
    if now < p.due_at() {
        SweepDecision::Keep
    } else {
        SweepDecision::Stat
    }
}

/// The next move of the sweep of a record from the result of its last probe.
pub fn sweep_after(p: &PendingDelete, result: &DeleteProbeResult) -> (r: SweepDecision)
    ensures
        r == spec_sweep_after(p@, *result),
{
    match result {
        DeleteProbeResult::Stat(Err(FileSysErr::PathDoesNotExistErr { .. })) => SweepDecision::Drop,
        DeleteProbeResult::Stat(Err(_)) => SweepDecision::Keep,
        DeleteProbeResult::Stat(Ok(meta)) => {
            if meta.len != p.size || meta.mtime != p.mtime {
                SweepDecision::Drop
            } else {
                SweepDecision::Delete
            }
        },
        DeleteProbeResult::Delete(Ok(())) => SweepDecision::Drop,
        DeleteProbeResult::Delete(Err(_)) => SweepDecision::Keep,
    }
}

/// Whether `p`'s due instant can be computed (`PendingDelete::due_at` would
/// otherwise overflow).
pub fn due_at_is_defined(p: &PendingDelete) -> (r: bool)
    ensures
        r == due_at_defined(p@),
{
    let delay: i64 = if p.delete_delay_secs < 0 {
        0
    } else {
        p.delete_delay_secs
    };
    crate::time::checked_add_secs(p.eligible_at, delay).is_some()
}

impl SingleThreadDeleter {
    /// A deleter seeded with a persisted backlog, if any, loaded in full even beyond
    /// `queue_capacity`: capacity gates only new enqueues.
    pub fn new(queue_capacity: usize, snapshot: Option<DeleteQueueSnapshot>) -> (r: Self)
        ensures
            r@.capacity == queue_capacity,
            match snapshot {
                Some(s) => r@.entries == pending_views(s.entries@),
                None => r@.entries.len() == 0,
            },
    {
        let mut entries: VecDeque<PendingDelete> = VecDeque::new();
        match snapshot {
            Some(s) => {
                let ghost orig = s.entries@;
                let mut rest = s.entries;
                while rest.len() > 0
                    invariant
                        rest@ + entries@ == orig,
                    decreases rest.len(),
                {
                    let ghost before = rest@;
                    let e = rest.pop().unwrap();
                    proof {
                        assert(before == rest@.push(e));
                    }
                    entries.push_front(e);
                    assert(rest@ + entries@ =~= orig);
                }
                assert(entries@ =~= orig);
            },
            None => {},
        }
        SingleThreadDeleter { entries, capacity: queue_capacity }
    }

    /// The number of pending deletions.
    pub fn len(&self) -> (r: usize)
        ensures
            r == self@.entries.len(),
    {
        self.entries.len()
    }

    /// The records to persist, oldest first.
    pub fn snapshot(&self) -> (r: DeleteQueueSnapshot)
        ensures
            pending_views(r.entries@) == self@.entries,
    {
        let mut out: Vec<PendingDelete> = Vec::new();
        let n = self.entries.len();
        let mut i: usize = 0;
        while i < n
            invariant
                n == self.entries@.len(),
                i <= n,
                out@.len() == i,
                forall|j: int| 0 <= j < i ==> (#[trigger] out@[j])@ == self.entries@[j]@,
            decreases n - i,
        {
            out.push(self.entries[i].duplicate());
            i = i + 1;
        }
        assert(pending_views(out@) =~= pending_views(self.entries@));
        DeleteQueueSnapshot { entries: out }
    }

    /// End a sweep: keep, in order, the records whose flag in `keep` is set (one flag
    /// per record, oldest first). Returns whether the queue changed, which is when it
    /// must be persisted.
    pub fn finish_sweep(&mut self, keep: &Vec<bool>) -> (changed: bool)
        requires
            keep@.len() == old(self)@.entries.len(),
        ensures
            final(self)@.capacity == old(self)@.capacity,
            final(self)@.entries == kept(old(self)@.entries, keep@),
            changed == (final(self)@.entries.len() != old(self)@.entries.len()),
    {
        let ghost orig = self@.entries;
        let n = self.entries.len();
        let mut i: usize = 0;
        while i < n
            invariant
                n == orig.len(),
                n == keep@.len(),
                i <= n,
                self.capacity == old(self).capacity,
                orig == old(self)@.entries,
                pending_views(self.entries@) == orig.subrange(i as int, n as int) + kept(
                    orig.take(i as int),
                    keep@.take(i as int),
                ),
            decreases n - i,
        {
            let ghost before = self.entries@;
            proof {
                assert(pending_views(before).len() == before.len());
                assert(pending_views(before)[0] == orig.subrange(i as int, n as int)[0]);
            }
            let e = self.entries.pop_front().unwrap();
            let ghost mid = self.entries@;
            proof {
                assert(e@ == orig[i as int]);
                assert(orig.take(i as int + 1).drop_last() =~= orig.take(i as int));
                assert(keep@.take(i as int + 1).drop_last() =~= keep@.take(i as int));
                assert(pending_views(mid) =~= pending_views(before).subrange(1, before.len() as int));
            }
            if keep[i] {
                self.entries.push_back(e);
                proof {
                    assert(pending_views(self.entries@) =~= pending_views(mid).push(e@));
                }
            }
            assert(pending_views(self.entries@) =~= orig.subrange(i as int + 1, n as int) + kept(
                orig.take(i as int + 1),
                keep@.take(i as int + 1),
            ));
            i = i + 1;
        }
        proof {
            assert(orig.take(n as int) =~= orig);
            assert(keep@.take(n as int) =~= keep@);
            assert(pending_views(self.entries@) =~= kept(orig, keep@));
        }
        self.entries.len() != n
    }

    /// Record `pending` as the newest knowledge of its path: every record for the
    /// same file is dropped first, then the new record is appended, or refused when
    /// the queue is still at capacity (the file then simply stays on disk).
    pub fn enqueue(&mut self, pending: PendingDelete) -> (r: Result<(), DeleteErr>)
        ensures
            final(self)@.capacity == old(self)@.capacity,
            without_path(old(self)@.entries, pending.file.path@).len() >= old(self)@.capacity ==> {
                &&& r matches Err(DeleteErr::QueueFullErr(e))
                &&& e.capacity == old(self)@.capacity
                &&& e.file@ == pending.file.path@
                &&& final(self)@.entries == without_path(old(self)@.entries, pending.file.path@)
            },
            without_path(old(self)@.entries, pending.file.path@).len() < old(self)@.capacity ==> {
                &&& r is Ok
                &&& final(self)@.entries == without_path(old(self)@.entries, pending.file.path@).push(
                    pending@,
                )
            },
    {
        let ghost orig = self@.entries;
        let ghost path = pending.file.path@;
        let n = self.entries.len();
        let mut i: usize = 0;
        while i < n
            invariant
                n == orig.len(),
                i <= n,
                self.capacity == old(self).capacity,
                orig == old(self)@.entries,
                path == pending.file.path@,
                pending_views(self.entries@) == orig.subrange(i as int, n as int) + without_path(
                    orig.take(i as int),
                    path,
                ),
            decreases n - i,
        {
            let ghost before = self.entries@;
            proof {
                assert(pending_views(before).len() == before.len());
                assert(pending_views(before)[0] == orig.subrange(i as int, n as int)[0]);
            }
            let e = self.entries.pop_front().unwrap();
            let ghost mid = self.entries@;
            proof {
                assert(e@ == orig[i as int]);
                assert(orig.take(i as int + 1).drop_last() =~= orig.take(i as int));
                assert(pending_views(mid) =~= pending_views(before).subrange(1, before.len() as int));
            }
            if !str_equals(e.file.path.as_str(), pending.file.path.as_str()) {
                self.entries.push_back(e);
                proof {
                    assert(pending_views(self.entries@) =~= pending_views(mid).push(e@));
                }
            }
            assert(pending_views(self.entries@) =~= orig.subrange(i as int + 1, n as int)
                + without_path(orig.take(i as int + 1), path));
            i = i + 1;
        }
        proof {
            assert(orig.take(n as int) =~= orig);
            assert(pending_views(self.entries@) =~= without_path(orig, path));
        }
        if self.entries.len() >= self.capacity {
            return Err(
                DeleteErr::QueueFullErr(
                    QueueFullErr { capacity: self.capacity, file: pending.file.path.clone() },
                ),
            );
        }
        let ghost before = self.entries@;
        self.entries.push_back(pending);
        proof {
            assert(pending_views(self.entries@) =~= pending_views(before).push(pending@));
        }
        Ok(())
    }
}

/// Every record kept by `without_path` comes from `s` and names another path.
proof fn lemma_without_path_from(s: Seq<PendingDeleteView>, path: Seq<char>)
    ensures
        forall|k: int|
            0 <= k < without_path(s, path).len() ==> (#[trigger] without_path(s, path)[k]).file
                != path && exists|j: int| 0 <= j < s.len() && s[j] == without_path(s, path)[k],
        without_path(s, path).len() <= s.len(),
    decreases s.len(),
{
    if s.len() > 0 {
        let t = s.drop_last();
        lemma_without_path_from(t, path);
        let r = without_path(t, path);
        assert forall|k: int| 0 <= k < r.len() implies exists|j: int|
            0 <= j < s.len() && s[j] == (#[trigger] r[k]) by {
            let j = choose|j: int| 0 <= j < t.len() && t[j] == r[k];
            assert(s[j] == t[j]);
        }
        if s.last().file != path {
            assert(s[s.len() - 1] == s.last());
        }
    }
}

/// With at most one record per path, dropping the records for `path` shortens the
/// queue by one when it held that path and leaves it as it is otherwise, and keeps
/// every path unique.
proof fn lemma_without_path_unique(s: Seq<PendingDeleteView>, path: Seq<char>)
    requires
        unique_paths(s),
    ensures
        unique_paths(without_path(s, path)),
        without_path(s, path).len() == s.len() - if exists|j: int|
            0 <= j < s.len() && (#[trigger] s[j]).file == path {
            1int
        } else {
            0int
        },
    decreases s.len(),
{
    if s.len() > 0 {
        let t = s.drop_last();
        assert(unique_paths(t)) by {
            assert forall|i: int, j: int| 0 <= i < j < t.len() implies t[i].file != t[j].file by {
                assert(t[i] == s[i] && t[j] == s[j]);
            }
        }
        lemma_without_path_unique(t, path);
        lemma_without_path_from(t, path);
        let r = without_path(t, path);
        let l = s.len() - 1;
        if s.last().file != path {
            assert forall|i: int, j: int| 0 <= i < j < r.push(s.last()).len() implies r.push(
                s.last(),
            )[i].file != r.push(s.last())[j].file by {
                if j == r.len() {
                    let w = choose|w: int| 0 <= w < t.len() && t[w] == r[i];
                    assert(s[w] == t[w]);
                    assert(s[w].file != s[l].file);
                }
            }
            if exists|j: int| 0 <= j < s.len() && (#[trigger] s[j]).file == path {
                let j = choose|j: int| 0 <= j < s.len() && (#[trigger] s[j]).file == path;
                assert(t[j] == s[j]);
            }
            if exists|j: int| 0 <= j < t.len() && (#[trigger] t[j]).file == path {
                let j = choose|j: int| 0 <= j < t.len() && (#[trigger] t[j]).file == path;
                assert(t[j] == s[j]);
            }
        } else {
            assert(s[l].file == path);
            if exists|j: int| 0 <= j < t.len() && (#[trigger] t[j]).file == path {
                let j = choose|j: int| 0 <= j < t.len() && (#[trigger] t[j]).file == path;
                assert(t[j] == s[j]);
                assert(s[j].file != s[l].file);
            }
        }
    }
}

/// The deleter holds at most one record per path: an enqueue, accepted or refused,
/// keeps every path unique, and an accepted one leaves exactly one record for its
/// path, the new one, at the tail. Replacing a record for a path already queued
/// leaves the queue's length unchanged.
pub proof fn lemma_enqueue_keeps_paths_unique(s: Seq<PendingDeleteView>, p: PendingDeleteView)
    requires
        unique_paths(s),
    ensures
        unique_paths(without_path(s, p.file)),
        unique_paths(without_path(s, p.file).push(p)),
        forall|k: int|
            0 <= k < without_path(s, p.file).len() ==> (#[trigger] without_path(s, p.file)[k]).file
                != p.file,
        (exists|j: int| 0 <= j < s.len() && (#[trigger] s[j]).file == p.file) ==> without_path(
            s,
            p.file,
        ).push(p).len() == s.len(),
{
    lemma_without_path_unique(s, p.file);
    lemma_without_path_from(s, p.file);
    let r = without_path(s, p.file);
    assert forall|i: int, j: int| 0 <= i < j < r.push(p).len() implies r.push(p)[i].file != r.push(
        p,
    )[j].file by {
        if j == r.len() {
            assert(r[i].file != p.file);
        }
    }
}

/// A sweep never lengthens the queue, and keeps every path unique.
pub proof fn lemma_sweep_keeps_paths_unique(s: Seq<PendingDeleteView>, keep: Seq<bool>)
    requires
        unique_paths(s),
        keep.len() == s.len(),
    ensures
        kept(s, keep).len() <= s.len(),
        unique_paths(kept(s, keep)),
    decreases s.len(),
{
    lemma_kept_from(s, keep);
}

proof fn lemma_kept_from(s: Seq<PendingDeleteView>, keep: Seq<bool>)
    requires
        keep.len() == s.len(),
        unique_paths(s),
    ensures
        kept(s, keep).len() <= s.len(),
        unique_paths(kept(s, keep)),
        forall|k: int|
            0 <= k < kept(s, keep).len() ==> exists|j: int|
                0 <= j < s.len() && s[j] == (#[trigger] kept(s, keep)[k]),
    decreases s.len(),
{
    if s.len() > 0 {
        let t = s.drop_last();
        assert(unique_paths(t)) by {
            assert forall|i: int, j: int| 0 <= i < j < t.len() implies t[i].file != t[j].file by {
                assert(t[i] == s[i] && t[j] == s[j]);
            }
        }
        lemma_kept_from(t, keep.drop_last());
        let r = kept(t, keep.drop_last());
        let l = s.len() - 1;
        assert forall|k: int| 0 <= k < r.len() implies exists|j: int|
            0 <= j < s.len() && s[j] == (#[trigger] r[k]) by {
            let j = choose|j: int| 0 <= j < t.len() && t[j] == r[k];
            assert(s[j] == t[j]);
        }
        if keep.last() {
            assert(s[l] == s.last());
            assert forall|i: int, j: int| 0 <= i < j < r.push(s.last()).len() implies r.push(
                s.last(),
            )[i].file != r.push(s.last())[j].file by {
                if j == r.len() {
                    let w = choose|w: int| 0 <= w < t.len() && t[w] == r[i];
                    assert(s[w] == t[w]);
                    assert(s[w].file != s[l].file);
                }
            }
        }
    }
}


/// A pending delete removes a file only when a stat has just shown it unchanged: a
/// stat'ed file whose size and mtime match the record is deleted, and one that differs
/// in either is dropped without deleting. A missing file drops the record; a failed
/// stat or delete keeps it for the next sweep; a done delete drops it.
pub proof fn lemma_sweep_after_deletes_only_unchanged_files(
    p: PendingDeleteView,
    meta: FileMeta,
    result: DeleteProbeResult,
)
    ensures
        spec_sweep_after(p, DeleteProbeResult::Stat(Ok(meta))) == (if meta.len == p.size
            && meta.mtime == p.mtime {
            SweepDecision::Delete
        } else {
            SweepDecision::Drop
        }),
        spec_sweep_after(p, result) == SweepDecision::Delete ==> (result matches DeleteProbeResult::Stat(
            Ok(m),
        ) && m.len == p.size && m.mtime == p.mtime),
        spec_sweep_after(p, DeleteProbeResult::Delete(Ok(()))) == SweepDecision::Drop,
        result matches DeleteProbeResult::Delete(Err(_)) ==> spec_sweep_after(p, result)
            == SweepDecision::Keep,
        result matches DeleteProbeResult::Stat(Err(err)) ==> spec_sweep_after(p, result) == (
        if err is PathDoesNotExistErr {
            SweepDecision::Drop
        } else {
            SweepDecision::Keep
        }),
        spec_sweep_after(p, result) != SweepDecision::Stat,
{
}

} // verus!
