pub mod errors;

use std::collections::VecDeque;
use vstd::prelude::*;

pub use self::errors::QueueFullErr;
use crate::time::MIN_UTC_NANOS;

verus! {

/// Everything a `Queue` needs to know about the job it carries.
pub trait QueueJob: View + Sized {
    /// The queue's log prefix, e.g. `"upload"` or `"delete"`.
    spec fn spec_label() -> Seq<char>;

    /// Earliest instant (Unix nanoseconds) at which the job may be actioned.
    spec fn spec_due_at(job: Self::V) -> int;

    /// The file the job concerns.
    spec fn spec_file(job: Self::V) -> Seq<char>;

    fn label() -> (r: &'static str)
        ensures
            r@ == Self::spec_label(),
    ;

    fn due_at(&self) -> (r: i128)
        ensures
            r == Self::spec_due_at(self@),
    ;

    fn file(&self) -> (r: String)
        ensures
            r@ == Self::spec_file(self@),
    ;

    fn duplicate(&self) -> (r: Self)
        ensures
            r@ == self@,
    ;
}

/// A queued job with its bookkeeping. `next_attempt_at` is the earliest instant at
/// which the entry may be selected again; `None` means "now".
#[derive(Debug)]
pub struct QueueEntry<J> {
    pub id: u128,
    pub job: J,
    pub attempts: u32,
    pub next_attempt_at: Option<i128>,
}

pub struct QueueEntryView<V> {
    pub id: u128,
    pub job: V,
    pub attempts: u32,
    pub next_attempt_at: Option<i128>,
}

impl<J: View> View for QueueEntry<J> {
    type V = QueueEntryView<J::V>;

    open spec fn view(&self) -> QueueEntryView<J::V> {
        QueueEntryView {
            id: self.id,
            job: self.job@,
            attempts: self.attempts,
            next_attempt_at: self.next_attempt_at,
        }
    }
}

impl<J: QueueJob> QueueEntry<J> {
    pub fn duplicate(&self) -> (r: Self)
        ensures
            r@ == self@,
    {
        QueueEntry {
            id: self.id,
            job: self.job.duplicate(),
            attempts: self.attempts,
            next_attempt_at: self.next_attempt_at,
        }
    }
}

/// The persisted form of a queue: its entries, oldest enqueue first.
#[derive(Debug)]
pub struct QueueSnapshot<J> {
    pub entries: Vec<QueueEntry<J>>,
}

impl<J> QueueSnapshot<J> {
    pub fn empty() -> (r: Self)
        ensures
            r.entries@.len() == 0,
    {
        QueueSnapshot { entries: Vec::new() }
    }
}

/// The entries of a sequence, each by its view.
pub open spec fn entry_views<J: View>(s: Seq<QueueEntry<J>>) -> Seq<QueueEntryView<J::V>> {
    s.map_values(|e: QueueEntry<J>| e@)
}

/// The mathematical queue: its entries, oldest first, and its admission limit.
pub struct QueueView<V> {
    pub entries: Seq<QueueEntryView<V>>,
    pub capacity: nat,
}

/// An in-memory job queue. Selection (`next_ready`, `count_ready`) never mutates; a
/// selected entry stays queued until it is passed back to `remove` or `requeue`,
/// which is what makes the queue at-least-once. Capacity gates new enqueues only.
pub struct Queue<J: QueueJob> {
    entries: VecDeque<QueueEntry<J>>,
    capacity: usize,
}

impl<J: QueueJob> View for Queue<J> {
    type V = QueueView<J::V>;

    closed spec fn view(&self) -> QueueView<J::V> {
        QueueView { entries: entry_views(self.entries@), capacity: self.capacity as nat }
    }
}

/// Whether entry `e` may be actioned at `now`: its job is due and its backoff, if
/// any, has run out.
pub open spec fn entry_ready<J: QueueJob>(e: QueueEntryView<J::V>, now: int) -> bool {
    &&& J::spec_due_at(e.job) <= now
    &&& match e.next_attempt_at {
        Some(at) => at <= now,
        None => true,
    }
}

/// `i` is the position of the first entry ready at `now`.
pub open spec fn is_first_ready<J: QueueJob>(
    s: Seq<QueueEntryView<J::V>>,
    now: int,
    i: int,
) -> bool {
    &&& 0 <= i < s.len()
    &&& entry_ready::<J>(s[i], now)
    &&& forall|j: int| 0 <= j < i ==> !entry_ready::<J>(#[trigger] s[j], now)
}

/// The position of the first entry ready at `now`, if any.
pub open spec fn first_ready<J: QueueJob>(s: Seq<QueueEntryView<J::V>>, now: int) -> Option<int> {
    if exists|i: int| is_first_ready::<J>(s, now, i) {
        Some(choose|i: int| is_first_ready::<J>(s, now, i))
    } else {
        None
    }
}

/// The number of entries ready at `now`.
pub open spec fn count_ready<J: QueueJob>(s: Seq<QueueEntryView<J::V>>, now: int) -> nat
    decreases s.len(),
{
    if s.len() == 0 {
        0
    } else {
        count_ready::<J>(s.drop_last(), now) + if entry_ready::<J>(s.last(), now) {
            1nat
        } else {
            0nat
        }
    }
}

/// `i` is the position of the first entry carrying `id`.
pub open spec fn is_first_with_id<V>(s: Seq<QueueEntryView<V>>, id: u128, i: int) -> bool {
    &&& 0 <= i < s.len()
    &&& s[i].id == id
    &&& forall|j: int| 0 <= j < i ==> (#[trigger] s[j]).id != id
}

/// The position of the first entry carrying `id`, if any.
pub open spec fn position_of<V>(s: Seq<QueueEntryView<V>>, id: u128) -> Option<int> {
    if exists|i: int| is_first_with_id(s, id, i) {
        Some(choose|i: int| is_first_with_id(s, id, i))
    } else {
        None
    }
}

/// `s` without its first entry carrying `id` (unchanged when there is none).
pub open spec fn without_id<V>(s: Seq<QueueEntryView<V>>, id: u128) -> Seq<QueueEntryView<V>> {
    match position_of(s, id) {
        Some(i) => s.remove(i),
        None => s,
    }
}

/// The instant from which an entry may be retried; no deadline counts as the
/// earliest representable instant.
pub open spec fn effective_deadline<V>(e: QueueEntryView<V>) -> int {
    match e.next_attempt_at {
        Some(at) => at as int,
        None => MIN_UTC_NANOS as int,
    }
}

/// The least effective deadline of a non-empty sequence of entries.
pub open spec fn min_deadline<V>(s: Seq<QueueEntryView<V>>) -> int
    decreases s.len(),
{
    if s.len() <= 1 {
        effective_deadline(s[0])
    } else {
        let m = min_deadline(s.drop_last());
        let d = effective_deadline(s.last());
        if d < m {
            d
        } else {
            m
        }
    }
}

/// An entry whose deadline lies beyond `horizon` pulled back to it.
pub open spec fn clamp_deadline<V>(e: QueueEntryView<V>, horizon: i128) -> QueueEntryView<V> {
    match e.next_attempt_at {
        Some(at) => if at > horizon {
            QueueEntryView { next_attempt_at: Some(horizon), ..e }
        } else {
            e
        },
        None => e,
    }
}

/// No entry of `s` carries `id`.
pub open spec fn id_unused<V>(s: Seq<QueueEntryView<V>>, id: u128) -> bool {
    forall|j: int| 0 <= j < s.len() ==> (#[trigger] s[j]).id != id
}

impl<J: QueueJob> Queue<J> {
    /// An empty queue that admits up to `capacity` entries.
    pub fn new(capacity: usize) -> (r: Self)
        ensures
            r@.entries.len() == 0,
            r@.capacity == capacity,
    {
        Queue { entries: VecDeque::new(), capacity }
    }

    /// A queue seeded with a persisted backlog, loaded in full even beyond
    /// `capacity`: capacity gates only new enqueues.
    pub fn from_snapshot(capacity: usize, snapshot: QueueSnapshot<J>) -> (r: Self)
        ensures
            r@.entries == entry_views(snapshot.entries@),
            r@.capacity == capacity,
    {
        let ghost orig = snapshot.entries@;
        let mut rest = snapshot.entries;
        let mut entries: VecDeque<QueueEntry<J>> = VecDeque::new();
        while rest.len() > 0
            invariant
                rest@ + entries@ == orig,
            decreases rest.len(),
        {
            let ghost before = rest@;
            let e = rest.pop().unwrap();
            proof {
                assert(before == rest@.push(e));
            }
            entries.push_front(e);
            assert(rest@ + entries@ =~= orig);
        }
        assert(entries@ =~= orig);
        Queue { entries, capacity }
    }

    /// The entries to persist, oldest first.
    pub fn snapshot(&self) -> (r: QueueSnapshot<J>)
        ensures
            entry_views(r.entries@) == self@.entries,
    {
        let mut out: Vec<QueueEntry<J>> = Vec::new();
        let n = self.entries.len();
        let mut i: usize = 0;
        while i < n
            invariant
                n == self.entries@.len(),
                i <= n,
                out@.len() == i,
                forall|j: int| 0 <= j < i ==> (#[trigger] out@[j])@ == self.entries@[j]@,
            decreases n - i,
        {
            out.push(self.entries[i].duplicate());
            i = i + 1;
        }
        assert(entry_views(out@) =~= entry_views(self.entries@));
        QueueSnapshot { entries: out }
    }

    /// The number of queued entries, including one in flight.
    pub fn len(&self) -> (r: usize)
        ensures
            r == self@.entries.len(),
    {
        self.entries.len()
    }

    pub fn is_empty(&self) -> (r: bool)
        ensures
            r == (self@.entries.len() == 0),
    {
        self.entries.len() == 0
    }

    pub fn capacity(&self) -> (r: usize)
        ensures
            r == self@.capacity,
    {
        self.capacity
    }

    /// Whether some queued entry carries `id`.
    pub fn contains_id(&self, id: u128) -> (r: bool)
        ensures
            r == !id_unused(self@.entries, id),
    {
        let ghost s = self@.entries;
        let n = self.entries.len();
        let mut i: usize = 0;
        while i < n
            invariant
                n == self.entries@.len(),
                s == entry_views(self.entries@),
                i <= n,
                forall|j: int| 0 <= j < i ==> (#[trigger] s[j]).id != id,
            decreases n - i,
        {
            if self.entries[i].id == id {
                assert(s[i as int].id == id);
                return true;
            }
            i = i + 1;
        }
        false
    }

    /// Push a new job at the tail under `id`, which no queued entry carries (the
    /// caller draws it at random), or reject it, changing nothing, when the queue is
    /// full.
    pub fn enqueue(&mut self, job: J, id: u128) -> (r: Result<(), QueueFullErr>)
        requires
            id_unused(old(self)@.entries, id),
        ensures
            final(self)@.capacity == old(self)@.capacity,
            old(self)@.entries.len() >= old(self)@.capacity ==> {
                &&& r matches Err(e)
                &&& e.label@ == J::spec_label()
                &&& e.capacity == old(self)@.capacity
                &&& e.name@ == J::spec_file(job@)
                &&& final(self)@.entries == old(self)@.entries
            },
            old(self)@.entries.len() < old(self)@.capacity ==> {
                &&& r is Ok
                &&& final(self)@.entries.len() == old(self)@.entries.len() + 1
                &&& final(self)@.entries.drop_last() == old(self)@.entries
                &&& final(self)@.entries.last().id == id
                &&& final(self)@.entries.last().job == job@
                &&& final(self)@.entries.last().attempts == 0
                &&& final(self)@.entries.last().next_attempt_at is None
            },
    {
        if self.entries.len() >= self.capacity {
            return Err(QueueFullErr::new(J::label(), self.capacity, job.file()));
        }
        let ghost before = self.entries@;
        let entry = QueueEntry { id, job, attempts: 0, next_attempt_at: None };
        self.entries.push_back(entry);
        proof {
            assert(entry_views(self.entries@).drop_last() =~= entry_views(before));
        }
        Ok(())
    }

    /// The position of the first entry with `id`.
    fn position(&self, id: u128) -> (r: Option<usize>)
        ensures
            r matches Some(i) ==> position_of(self@.entries, id) == Some(i as int),
            r is None ==> position_of(self@.entries, id) is None,
    {
        let ghost s = self@.entries;
        let n = self.entries.len();
        let mut i: usize = 0;
        while i < n
            invariant
                n == self.entries@.len(),
                s == entry_views(self.entries@),
                i <= n,
                forall|j: int| 0 <= j < i ==> (#[trigger] s[j]).id != id,
            decreases n - i,
        {
            if self.entries[i].id == id {
                proof {
                    assert(is_first_with_id(s, id, i as int));
                    let k = choose|k: int| is_first_with_id(s, id, k);
                    if k < i {
                        assert(s[k].id != id);
                    }
                    if i < k {
                        assert(s[i as int].id != id);
                    }
                }
                return Some(i);
            }
            i = i + 1;
        }
        proof {
            if exists|k: int| is_first_with_id(s, id, k) {
                let k = choose|k: int| is_first_with_id(s, id, k);
                assert(s[k].id != id);
            }
        }
        None
    }

    fn remove_impl(&mut self, id: u128) -> (r: Option<QueueEntry<J>>)
        ensures
            final(self)@.capacity == old(self)@.capacity,
            final(self)@.entries == without_id(old(self)@.entries, id),
            match position_of(old(self)@.entries, id) {
                Some(i) => (r matches Some(e) && e@ == old(self)@.entries[i]),
                None => r is None,
            },
    {
        match self.position(id) {
            Some(i) => {
                let ghost before = self.entries@;
                let e = self.entries.remove(i);
                proof {
                    assert(entry_views(self.entries@) =~= entry_views(before).remove(i as int));
                }
                e
            },
            None => None,
        }
    }

    /// Drop the first entry with `id` and return it; unknown ids are ignored.
    pub fn remove(&mut self, id: u128) -> (r: Option<QueueEntry<J>>)
        ensures
            final(self)@.capacity == old(self)@.capacity,
            final(self)@.entries == without_id(old(self)@.entries, id),
            match position_of(old(self)@.entries, id) {
                Some(i) => (r matches Some(e) && e@ == old(self)@.entries[i]),
                None => r is None,
            },
    {
        self.remove_impl(id)
    }

    /// Move `entry` to the tail, replacing whatever is queued under its id. Not
    /// capacity-gated: a rotation, not an admission.
    pub fn requeue(&mut self, entry: QueueEntry<J>)
        ensures
            final(self)@.capacity == old(self)@.capacity,
            final(self)@.entries == without_id(old(self)@.entries, entry.id).push(entry@),
    {
        self.remove_impl(entry.id);
        let ghost before = self.entries@;
        self.entries.push_back(entry);
        proof {
            assert(entry_views(self.entries@) =~= entry_views(before).push(entry@));
        }
    }

    /// Whether `entry` may be selected at `now`: its job is due and any retry deadline
    /// has passed.
    pub fn is_ready(entry: &QueueEntry<J>, now: i128) -> (r: bool)
        ensures
            r == entry_ready::<J>(entry@, now as int),
    {
        if entry.job.due_at() > now {
            return false;
        }
        match entry.next_attempt_at {
            Some(at) => at <= now,
            None => true,
        }
    }

    /// A copy of the first entry ready at `now`, left in the queue; `None` when no
    /// entry is ready.
    pub fn next_ready(&self, now: i128) -> (r: Option<QueueEntry<J>>)
        ensures
            match first_ready::<J>(self@.entries, now as int) {
                Some(i) => (r matches Some(e) && e@ == self@.entries[i]),
                None => r is None,
            },
    {
        let ghost s = self@.entries;
        let n = self.entries.len();
        let mut i: usize = 0;
        while i < n
            invariant
                n == self.entries@.len(),
                s == entry_views(self.entries@),
                i <= n,
                forall|j: int| 0 <= j < i ==> !entry_ready::<J>(#[trigger] s[j], now as int),
            decreases n - i,
        {
            if Self::is_ready(&self.entries[i], now) {
                proof {
                    assert(is_first_ready::<J>(s, now as int, i as int));
                    let k = choose|k: int| is_first_ready::<J>(s, now as int, k);
                    if k < i {
                        assert(!entry_ready::<J>(s[k], now as int));
                    }
                    if i < k {
                        assert(!entry_ready::<J>(s[i as int], now as int));
                    }
                }
                return Some(self.entries[i].duplicate());
            }
            i = i + 1;
        }
        proof {
            if exists|k: int| is_first_ready::<J>(s, now as int, k) {
                let k = choose|k: int| is_first_ready::<J>(s, now as int, k);
                assert(!entry_ready::<J>(s[k], now as int));
            }
        }
        None
    }

    /// How many entries are ready at `now`.
    pub fn count_ready(&self, now: i128) -> (r: usize)
        ensures
            r == count_ready::<J>(self@.entries, now as int),
    {
        let ghost s = self@.entries;
        let n = self.entries.len();
        let mut i: usize = 0;
        let mut count: usize = 0;
        while i < n
            invariant
                n == self.entries@.len(),
                s == entry_views(self.entries@),
                i <= n,
                count == count_ready::<J>(s.take(i as int), now as int),
                count <= i,
            decreases n - i,
        {
            proof {
                assert(s.take(i as int + 1).drop_last() =~= s.take(i as int));
            }
            if Self::is_ready(&self.entries[i], now) {
                count = count + 1;
            }
            i = i + 1;
        }
        assert(s.take(n as int) =~= s);
        count
    }

    /// Pull every deadline strictly beyond `horizon` back to it.
    pub fn reset_invalid_deadlines(&mut self, horizon: i128)
        ensures
            final(self)@.capacity == old(self)@.capacity,
            final(self)@.entries == old(self)@.entries.map_values(
                |e: QueueEntryView<J::V>| clamp_deadline(e, horizon),
            ),
    {
        let ghost orig = self@.entries;
        let n = self.entries.len();
        let mut i: usize = 0;
        while i < n
            invariant
                n == orig.len(),
                i <= n,
                self.capacity == old(self).capacity,
                orig == old(self)@.entries,
                entry_views(self.entries@) == orig.subrange(i as int, n as int) + orig.take(
                    i as int,
                ).map_values(|e: QueueEntryView<J::V>| clamp_deadline(e, horizon)),
            decreases n - i,
        {
            let ghost before = self.entries@;
            proof {
                assert(entry_views(before).len() == before.len());
                assert(entry_views(before)[0] == orig.subrange(i as int, n as int)[0]);
            }
            let mut e = self.entries.pop_front().unwrap();
            let ghost e0 = e@;
            proof {
                assert(e0 == entry_views(before)[0]);
                assert(e0 == orig[i as int]);
            }
            match e.next_attempt_at {
                Some(at) => {
                    if at > horizon {
                        e.next_attempt_at = Some(horizon);
                    }
                },
                None => {},
            }
            let ghost mid = self.entries@;
            self.entries.push_back(e);
            proof {
                assert(e@ == clamp_deadline(orig[i as int], horizon));
                assert(entry_views(mid) =~= entry_views(before).subrange(1, before.len() as int));
                assert(entry_views(self.entries@) =~= entry_views(mid).push(e@));
                assert(orig.take(i as int + 1).map_values(
                    |e: QueueEntryView<J::V>| clamp_deadline(e, horizon),
                ) =~= orig.take(i as int).map_values(
                    |e: QueueEntryView<J::V>| clamp_deadline(e, horizon),
                ).push(clamp_deadline(orig[i as int], horizon)));
                assert(entry_views(self.entries@) =~= orig.subrange(i as int + 1, n as int)
                    + orig.take(i as int + 1).map_values(
                    |e: QueueEntryView<J::V>| clamp_deadline(e, horizon),
                ));
            }
            i = i + 1;
        }
        proof {
            assert(orig.take(n as int) =~= orig);
            assert(entry_views(self.entries@) =~= orig.map_values(
                |e: QueueEntryView<J::V>| clamp_deadline(e, horizon),
            ));
        }
    }

    /// The least effective deadline over all entries; `None` only for an empty queue.
    pub fn earliest_next_attempt(&self) -> (r: Option<i128>)
        ensures
            self@.entries.len() == 0 ==> r is None,
            self@.entries.len() > 0 ==> r == Some(min_deadline(self@.entries) as i128),
            r matches Some(m) ==> m == min_deadline(self@.entries),
    {
        let ghost s = self@.entries;
        let n = self.entries.len();
        if n == 0 {
            return None;
        }
        let mut best: i128 = match self.entries[0].next_attempt_at {
            Some(at) => at,
            None => MIN_UTC_NANOS,
        };
        proof {
            assert(s.take(1).len() == 1);
            assert(s.take(1)[0] == s[0]);
        }
        let mut i: usize = 1;
        while i < n
            invariant
                n == self.entries@.len(),
                s == entry_views(self.entries@),
                1 <= i <= n,
                best == min_deadline(s.take(i as int)),
            decreases n - i,
        {
            proof {
                assert(s.take(i as int + 1).drop_last() =~= s.take(i as int));
            }
            let d = match self.entries[i].next_attempt_at {
                Some(at) => at,
                None => MIN_UTC_NANOS,
            };
            if d < best {
                best = d;
            }
            i = i + 1;
        }
        assert(s.take(n as int) =~= s);
        Some(best)
    }
}

/// No entry is ready exactly when the ready count is zero.
proof fn lemma_count_ready_zero<J: QueueJob>(s: Seq<QueueEntryView<J::V>>, now: int)
    ensures
        count_ready::<J>(s, now) <= s.len(),
        (count_ready::<J>(s, now) == 0) <==> (forall|j: int|
            0 <= j < s.len() ==> !entry_ready::<J>(#[trigger] s[j], now)),
    decreases s.len(),
{
    if s.len() > 0 {
        let t = s.drop_last();
        lemma_count_ready_zero::<J>(t, now);
        if count_ready::<J>(s, now) == 0 {
            assert forall|j: int| 0 <= j < s.len() implies !entry_ready::<J>(#[trigger] s[j], now) by {
                if j < s.len() - 1 {
                    assert(s[j] == t[j]);
                }
            }
        }
        if forall|j: int| 0 <= j < s.len() ==> !entry_ready::<J>(#[trigger] s[j], now) {
            assert forall|j: int| 0 <= j < t.len() implies !entry_ready::<J>(#[trigger] t[j], now) by {
                assert(t[j] == s[j]);
            }
            assert(!entry_ready::<J>(s[s.len() - 1], now));
        }
    }
}

/// Some entry is ready exactly when there is a first ready entry.
proof fn lemma_first_ready_exists<J: QueueJob>(s: Seq<QueueEntryView<J::V>>, now: int)
    ensures
        (first_ready::<J>(s, now) is Some) <==> (exists|j: int|
            0 <= j < s.len() && entry_ready::<J>(#[trigger] s[j], now)),
        first_ready::<J>(s, now) matches Some(i) ==> is_first_ready::<J>(s, now, i),
    decreases s.len(),
{
    if exists|k: int| is_first_ready::<J>(s, now, k) {
        let k = choose|k: int| is_first_ready::<J>(s, now, k);
        assert(entry_ready::<J>(s[k], now));
    } else if s.len() > 0 {
        let t = s.drop_last();
        lemma_first_ready_exists::<J>(t, now);
        if exists|j: int| 0 <= j < s.len() && entry_ready::<J>(#[trigger] s[j], now) {
            if exists|j: int| 0 <= j < t.len() && entry_ready::<J>(#[trigger] t[j], now) {
                let i = choose|i: int| is_first_ready::<J>(t, now, i);
                assert forall|j: int| 0 <= j < i implies !entry_ready::<J>(#[trigger] s[j], now) by {
                    assert(s[j] == t[j]);
                }
                assert(s[i] == t[i]);
                assert(is_first_ready::<J>(s, now, i));
            } else {
                let l = s.len() - 1;
                assert forall|j: int| 0 <= j < l implies !entry_ready::<J>(#[trigger] s[j], now) by {
                    assert(s[j] == t[j]);
                }
                let w = choose|j: int| 0 <= j < s.len() && entry_ready::<J>(#[trigger] s[j], now);
                if w < l {
                    assert(t[w] == s[w]);
                }
                assert(is_first_ready::<J>(s, now, l));
            }
        }
    }
}

/// The queue offers an entry at `now` (`next_ready`) exactly when its ready count
/// (`count_ready`) is positive, and the count never exceeds the queue's length.
pub proof fn lemma_next_ready_iff_count_positive<J: QueueJob>(
    s: Seq<QueueEntryView<J::V>>,
    now: int,
)
    ensures
        count_ready::<J>(s, now) <= s.len(),
        (first_ready::<J>(s, now) is Some) <==> count_ready::<J>(s, now) > 0,
        first_ready::<J>(s, now) matches Some(i) ==> 0 <= i < s.len() && entry_ready::<J>(s[i], now),
{
    lemma_count_ready_zero::<J>(s, now);
    lemma_first_ready_exists::<J>(s, now);
}

/// The first entry carrying `id` is where `position_of` says it is.
proof fn lemma_position_of<V>(s: Seq<QueueEntryView<V>>, id: u128)
    ensures
        position_of(s, id) matches Some(i) ==> is_first_with_id(s, id, i),
        (position_of(s, id) is None) ==> forall|j: int| 0 <= j < s.len() ==> (#[trigger] s[j]).id != id,
{
    if exists|i: int| is_first_with_id(s, id, i) {
    } else {
        assert forall|j: int| 0 <= j < s.len() implies (#[trigger] s[j]).id != id by {
            if s[j].id == id {
                lemma_least_with_id(s, id, j);
            }
        }
    }
}

proof fn lemma_least_with_id<V>(s: Seq<QueueEntryView<V>>, id: u128, j: int)
    requires
        0 <= j < s.len(),
        s[j].id == id,
    ensures
        exists|i: int| is_first_with_id(s, id, i),
    decreases j,
{
    if forall|k: int| 0 <= k < j ==> (#[trigger] s[k]).id != id {
        assert(is_first_with_id(s, id, j));
    } else {
        let k2 = choose|k: int| 0 <= k < j && (#[trigger] s[k]).id == id;
        lemma_least_with_id(s, id, k2);
    }
}

/// Requeueing an entry the queue holds is a rotation: the queue's length is unchanged.
pub proof fn lemma_requeue_preserves_len<V>(s: Seq<QueueEntryView<V>>, e: QueueEntryView<V>)
    requires
        exists|j: int| 0 <= j < s.len() && (#[trigger] s[j]).id == e.id,
    ensures
        without_id(s, e.id).push(e).len() == s.len(),
{
    lemma_position_of(s, e.id);
}

/// Removing the id of an entry just enqueued under a fresh id gives back the queue
/// as it was before the enqueue.
pub proof fn lemma_remove_undoes_enqueue<V>(s: Seq<QueueEntryView<V>>, e: QueueEntryView<V>)
    requires
        id_unused(s, e.id),
    ensures
        without_id(s.push(e), e.id) == s,
{
    let t = s.push(e);
    assert forall|j: int| 0 <= j < s.len() implies (#[trigger] t[j]).id != e.id by {
        assert(t[j] == s[j]);
    }
    assert(is_first_with_id(t, e.id, s.len() as int));
    lemma_position_of(t, e.id);
    let i = position_of(t, e.id).unwrap();
    if i < s.len() {
        assert(t[i] == s[i]);
    }
    assert(t.remove(s.len() as int) =~= s);
}

/// After `reset_invalid_deadlines(horizon)` no deadline lies beyond `horizon`, entries
/// whose deadline was within it are untouched, ids, jobs and attempt counts are kept,
/// and a second reset with the same horizon changes nothing.
pub proof fn lemma_reset_bounds_deadlines<V>(s: Seq<QueueEntryView<V>>, horizon: i128)
    ensures
        ({
            let r = s.map_values(|e: QueueEntryView<V>| clamp_deadline(e, horizon));
            &&& r.len() == s.len()
            &&& forall|i: int|
                0 <= i < s.len() ==> {
                    &&& (#[trigger] r[i]).id == s[i].id
                    &&& r[i].job == s[i].job
                    &&& r[i].attempts == s[i].attempts
                    &&& (r[i].next_attempt_at matches Some(at) ==> at <= horizon)
                    &&& (effective_deadline(s[i]) <= horizon ==> r[i] == s[i])
                }
            &&& r.map_values(|e: QueueEntryView<V>| clamp_deadline(e, horizon)) == r
        }),
{
    let r = s.map_values(|e: QueueEntryView<V>| clamp_deadline(e, horizon));
    assert(r.map_values(|e: QueueEntryView<V>| clamp_deadline(e, horizon)) =~= r);
}

/// The earliest deadline is attained by some entry and bounds every entry's
/// effective deadline from below.
pub proof fn lemma_min_deadline_is_least<V>(s: Seq<QueueEntryView<V>>)
    requires
        s.len() > 0,
    ensures
        forall|i: int| 0 <= i < s.len() ==> min_deadline(s) <= effective_deadline(#[trigger] s[i]),
        exists|i: int| 0 <= i < s.len() && min_deadline(s) == effective_deadline(#[trigger] s[i]),
    decreases s.len(),
{
    if s.len() > 1 {
        let t = s.drop_last();
        lemma_min_deadline_is_least(t);
        assert forall|i: int| 0 <= i < s.len() implies min_deadline(s) <= effective_deadline(
            #[trigger] s[i],
        ) by {
            if i < s.len() - 1 {
                assert(s[i] == t[i]);
            }
        }
        let w = choose|i: int| 0 <= i < t.len() && min_deadline(t) == effective_deadline(#[trigger] t[i]);
        assert(t[w] == s[w]);
        if effective_deadline(s.last()) < min_deadline(t) {
            assert(min_deadline(s) == effective_deadline(s[s.len() - 1]));
        } else {
            assert(min_deadline(s) == effective_deadline(s[w]));
        }
    } else {
        assert(min_deadline(s) == effective_deadline(s[0]));
    }
}

} // verus!
