use vstd::prelude::*;

use crate::filesys::File;
use crate::time::{Timestamp, checked_add_secs, nanos_of, valid_delta, valid_instant};

verus! {

/// A persisted pending-deletion record: this exact file (path, size, mtime, digest)
/// became deletable at `eligible_at`; delete it once `delete_delay_secs` have
/// passed. Instants are Unix nanoseconds.
#[derive(Debug)]
pub struct PendingDelete {
    pub file: File,
    pub size: u64,
    pub mtime: Timestamp,
    pub digest: String,
    pub eligible_at: i128,
    pub delete_delay_secs: i64,
    pub upload_rule_id: String,
    pub deployment_id: String,
}

pub struct PendingDeleteView {
    pub file: Seq<char>,
    pub size: u64,
    pub mtime: Timestamp,
    pub digest: Seq<char>,
    pub eligible_at: i128,
    pub delete_delay_secs: i64,
    pub upload_rule_id: Seq<char>,
    pub deployment_id: Seq<char>,
}

impl View for PendingDelete {
    type V = PendingDeleteView;

    open spec fn view(&self) -> PendingDeleteView {
        PendingDeleteView {
            file: self.file.path@,
            size: self.size,
            mtime: self.mtime,
            digest: self.digest@,
            eligible_at: self.eligible_at,
            delete_delay_secs: self.delete_delay_secs,
            upload_rule_id: self.upload_rule_id@,
            deployment_id: self.deployment_id@,
        }
    }
}

/// The delete delay, negative delays counting as zero.
pub open spec fn effective_delay(delay: i64) -> int {
    if delay < 0 {
        0
    } else {
        delay as int
    }
}

/// The record's due instant can be computed: the delay fits a time delta and the
/// sum is a representable instant.
pub open spec fn due_at_defined(p: PendingDeleteView) -> bool {
    &&& valid_instant(p.eligible_at as int)
    &&& valid_delta(effective_delay(p.delete_delay_secs))
    &&& valid_instant(p.eligible_at + nanos_of(effective_delay(p.delete_delay_secs)))
}

impl PendingDelete {
    /// The instant the record becomes actionable: `eligible_at` plus the delete
    /// delay (negative delays clamp to zero).
    pub fn due_at(&self) -> (r: i128)
        requires
            due_at_defined(self@),
        ensures
            r == self.eligible_at + nanos_of(effective_delay(self.delete_delay_secs)),
    {
        let delay: i64 = if self.delete_delay_secs < 0 {
            0
        } else {
            self.delete_delay_secs
        };
        checked_add_secs(self.eligible_at, delay).unwrap()
    }

    /// A copy with the same view.
    pub fn duplicate(&self) -> (r: Self)
        ensures
            r@ == self@,
    {
        PendingDelete {
            file: self.file.duplicate(),
            size: self.size,
            mtime: self.mtime,
            digest: self.digest.clone(),
            eligible_at: self.eligible_at,
            delete_delay_secs: self.delete_delay_secs,
            upload_rule_id: self.upload_rule_id.clone(),
            deployment_id: self.deployment_id.clone(),
        }
    }
}

/// The persisted form of the deleter's queue.
#[derive(Debug)]
pub struct DeleteQueueSnapshot {
    pub entries: Vec<PendingDelete>,
}

impl DeleteQueueSnapshot {
    pub fn empty() -> (r: Self)
        ensures
            r.entries@.len() == 0,
    {
        DeleteQueueSnapshot { entries: Vec::new() }
    }
}

} // verus!
