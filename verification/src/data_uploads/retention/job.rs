use vstd::prelude::*;

use crate::data_uploads::queue::QueueJob;
use crate::filesys::File;
use crate::time::{Timestamp, checked_add_secs, nanos_of, valid_delta, valid_instant, MAX_UTC_NANOS};

verus! {

/// A file that was uploaded and is to be deleted once its retention period has
/// passed. Instants are Unix nanoseconds.
#[derive(Debug)]
pub struct Job {
    pub file: File,
    pub size: u64,
    pub digest: String,
    pub mtime: Timestamp,
    pub first_observed_at: i128,
    pub last_observed_at: i128,
    pub ttl_secs: u64,
    pub file_rule_id: String,
    pub deployment_id: String,
}

pub struct JobView {
    pub file: Seq<char>,
    pub size: u64,
    pub digest: Seq<char>,
    pub mtime: Timestamp,
    pub first_observed_at: i128,
    pub last_observed_at: i128,
    pub ttl_secs: u64,
    pub file_rule_id: Seq<char>,
    pub deployment_id: Seq<char>,
}

impl View for Job {
    type V = JobView;

    open spec fn view(&self) -> JobView {
        JobView {
            file: self.file.path@,
            size: self.size,
            digest: self.digest@,
            mtime: self.mtime,
            first_observed_at: self.first_observed_at,
            last_observed_at: self.last_observed_at,
            ttl_secs: self.ttl_secs,
            file_rule_id: self.file_rule_id@,
            deployment_id: self.deployment_id@,
        }
    }
}

/// `last_observed_at` plus the TTL; a TTL whose end is not representable saturates
/// to the latest representable instant (the job is never due).
pub open spec fn spec_retention_due_at(last_observed_at: int, ttl_secs: int) -> int {
    if valid_instant(last_observed_at) && valid_delta(ttl_secs) && valid_instant(
        last_observed_at + nanos_of(ttl_secs),
    ) {
        last_observed_at + nanos_of(ttl_secs)
    } else {
        MAX_UTC_NANOS as int
    }
}

impl Job {
    /// The instant the job becomes due: `last_observed_at` plus the TTL, saturating
    /// to the far future when that is not representable.
    pub fn due_at(&self) -> (r: i128)
        ensures
            r == spec_retention_due_at(self.last_observed_at as int, self.ttl_secs as int),
    {
        if self.ttl_secs > 9223372036854775807u64 {
            return MAX_UTC_NANOS;
        }
        let ttl = self.ttl_secs as i64;
        match checked_add_secs(self.last_observed_at, ttl) {
            Some(t) => t,
            None => MAX_UTC_NANOS,
        }
    }

    /// A copy with the same view.
    pub fn duplicate(&self) -> (r: Self)
        ensures
            r@ == self@,
    {
        Job {
            file: self.file.duplicate(),
            size: self.size,
            digest: self.digest.clone(),
            mtime: self.mtime,
            first_observed_at: self.first_observed_at,
            last_observed_at: self.last_observed_at,
            ttl_secs: self.ttl_secs,
            file_rule_id: self.file_rule_id.clone(),
            deployment_id: self.deployment_id.clone(),
        }
    }
}

impl QueueJob for Job {
    open spec fn spec_label() -> Seq<char> {
        "delete"@
    }

    open spec fn spec_due_at(job: JobView) -> int {
        spec_retention_due_at(job.last_observed_at as int, job.ttl_secs as int)
    }

    open spec fn spec_file(job: JobView) -> Seq<char> {
        job.file
    }

    fn label() -> (r: &'static str) {
        "delete"
    }

    fn due_at(&self) -> (r: i128) {
        Job::due_at(self)
    }

    fn file(&self) -> (r: String) {
        self.file.path.clone()
    }

    fn duplicate(&self) -> (r: Self) {
        Job::duplicate(self)
    }
}

} // verus!
