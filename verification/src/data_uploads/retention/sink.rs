use vstd::prelude::*;

use crate::data_uploads::retention::job::{Job, JobView};
use crate::data_uploads::scan::state::StableFile;
use crate::models::FileRule;

verus! {

/// The retention job a stable file of `rule` yields: none when the rule keeps files
/// forever or deletes them only after their upload is confirmed; otherwise a job due
/// `ttl_secs` after the file was last observed.
pub fn retention_job_for(file: StableFile, rule: &FileRule) -> (r: Option<Job>)
    ensures
        match rule.retention {
            None => r is None,
            Some(ret) => if ret.require_upload {
                r is None
            } else {
                r matches Some(j) && j@ == (JobView {
                    file: file.file.path@,
                    size: file.size,
                    digest: file.digest@,
                    mtime: file.mtime,
                    first_observed_at: file.first_observed_at,
                    last_observed_at: file.last_observed_at,
                    ttl_secs: ret.ttl_secs,
                    file_rule_id: file.file_rule_id@,
                    deployment_id: file.deployment_id@,
                })
            },
        },
{
    let retention = match rule.retention {
        None => return None,
        Some(ret) => ret,
    };
    if retention.require_upload {
        return None;
    }
    Some(
        Job {
            file: file.file,
            size: file.size,
            digest: file.digest,
            mtime: file.mtime,
            first_observed_at: file.first_observed_at,
            last_observed_at: file.last_observed_at,
            ttl_secs: retention.ttl_secs,
            file_rule_id: file.file_rule_id,
            deployment_id: file.deployment_id,
        },
    )
}

} // verus!
