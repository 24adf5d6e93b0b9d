use vstd::prelude::*;

use crate::data_uploads::queue::QueueJob;
use crate::filesys::File;
use crate::models::FileRuleRetention;
use crate::time::{Timestamp, MIN_UTC_NANOS};

verus! {

/// A stable file to upload. Instants are Unix nanoseconds.
#[derive(Debug)]
pub struct Job {
    pub file: File,
    pub size: u64,
    pub digest: String,
    pub mtime: Timestamp,
    pub first_observed_at: i128,
    pub last_observed_at: i128,
    pub file_rule_id: String,
    pub deployment_id: String,
    pub retention: Option<FileRuleRetention>,
}

pub struct JobView {
    pub file: Seq<char>,
    pub size: u64,
    pub digest: Seq<char>,
    pub mtime: Timestamp,
    pub first_observed_at: i128,
    pub last_observed_at: i128,
    pub file_rule_id: Seq<char>,
    pub deployment_id: Seq<char>,
    pub retention: Option<FileRuleRetention>,
}

impl View for Job {
    type V = JobView;

    open spec fn view(&self) -> JobView {
        JobView {
            file: self.file.path@,
            size: self.size,
            digest: self.digest@,
            mtime: self.mtime,
            first_observed_at: self.first_observed_at,
            last_observed_at: self.last_observed_at,
            file_rule_id: self.file_rule_id@,
            deployment_id: self.deployment_id@,
            retention: self.retention,
        }
    }
}

impl Job {
    /// A copy with the same view.
    pub fn duplicate(&self) -> (r: Self)
        ensures
            r@ == self@,
    {
        Job {
            file: self.file.duplicate(),
            size: self.size,
            digest: self.digest.clone(),
            mtime: self.mtime,
            first_observed_at: self.first_observed_at,
            last_observed_at: self.last_observed_at,
            file_rule_id: self.file_rule_id.clone(),
            deployment_id: self.deployment_id.clone(),
            retention: self.retention,
        }
    }
}

/// An upload job is actionable the moment it is enqueued.
impl QueueJob for Job {
    open spec fn spec_label() -> Seq<char> {
        "upload"@
    }

    open spec fn spec_due_at(job: JobView) -> int {
        MIN_UTC_NANOS as int
    }

    open spec fn spec_file(job: JobView) -> Seq<char> {
        job.file
    }

    fn label() -> (r: &'static str) {
        "upload"
    }

    fn due_at(&self) -> (r: i128) {
        MIN_UTC_NANOS
    }

    fn file(&self) -> (r: String) {
        self.file.path.clone()
    }

    fn duplicate(&self) -> (r: Self) {
        Job::duplicate(self)
    }
}

} // verus!
