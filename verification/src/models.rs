use vstd::prelude::*;

verus! {

/// What the backend wants a deployment to become.
#[derive(Debug, Clone, Copy, PartialEq, Eq, Structural)]
pub enum DplTarget {
    Staged,
    Deployed,
    Archived,
}

/// What the agent has done with a deployment so far.
#[derive(Debug, Clone, Copy, PartialEq, Eq, Structural)]
pub enum DplActivity {
    Drifted,
    Staged,
    Queued,
    Deployed,
    Archived,
}

/// Whether the agent is failing to realise a deployment's target.
#[derive(Debug, Clone, Copy, PartialEq, Eq, Structural)]
pub enum DplErrStatus {
    NoError,
    Retrying,
    Failed,
}

/// A deployment as the agent tracks it. Instants are Unix nanoseconds.
#[derive(Debug, Clone, PartialEq)]
pub struct Deployment {
    pub id: String,
    pub target_status: DplTarget,
    pub activity_status: DplActivity,
    pub error_status: DplErrStatus,
    pub attempts: u32,
    pub cooldown_ends_at: i128,
    pub config_instance_ids: Vec<String>,
}

/// The mathematical view of a deployment: strings as character sequences.
pub struct DeploymentView {
    pub id: Seq<char>,
    pub target_status: DplTarget,
    pub activity_status: DplActivity,
    pub error_status: DplErrStatus,
    pub attempts: u32,
    pub cooldown_ends_at: i128,
    pub config_instance_ids: Seq<Seq<char>>,
}

impl View for Deployment {
    type V = DeploymentView;

    open spec fn view(&self) -> DeploymentView {
        DeploymentView {
            id: self.id@,
            target_status: self.target_status,
            activity_status: self.activity_status,
            error_status: self.error_status,
            attempts: self.attempts,
            cooldown_ends_at: self.cooldown_ends_at,
            config_instance_ids: self.config_instance_ids@.map_values(|s: String| s@),
        }
    }
}

/// A configuration file belonging to a deployment.
#[derive(Debug, Clone, PartialEq)]
pub struct ConfigInstance {
    pub id: String,
    pub filepath: String,
}

/// A partial update of a deployment's status fields; `None` leaves a field as it is.
/// `cooldown` is a duration in seconds, counted from the moment the update is applied.
#[derive(Debug, Clone, Copy)]
pub struct Updates {
    pub activity_status: Option<DplActivity>,
    pub error_status: Option<DplErrStatus>,
    pub attempts: Option<u32>,
    pub cooldown: Option<i64>,
}

impl DeploymentView {
    /// Whether the deployment is still cooling down at `now`.
    pub open spec fn spec_is_in_cooldown_at(self, now: int) -> bool {
        self.cooldown_ends_at > now
    }

    /// The deployment after applying `updates` at instant `now`.
    pub open spec fn spec_patched(self, updates: Updates, now: int) -> DeploymentView {
        DeploymentView {
            activity_status: match updates.activity_status {
                Some(a) => a,
                None => self.activity_status,
            },
            error_status: match updates.error_status {
                Some(e) => e,
                None => self.error_status,
            },
            attempts: match updates.attempts {
                Some(n) => n,
                None => self.attempts,
            },
            cooldown_ends_at: match updates.cooldown {
                Some(c) => crate::time::clamp_instant(now + crate::time::nanos_of(c as int)) as i128,
                None => self.cooldown_ends_at,
            },
            ..self
        }
    }
}

impl Deployment {
    pub fn is_in_cooldown_at(&self, now: i128) -> (r: bool)
        ensures
            r == self@.spec_is_in_cooldown_at(now as int),
    {
        self.cooldown_ends_at > now
    }

    /// Whether the deployment is cooling down at the current wall-clock time.
    pub fn is_in_cooldown(&self) -> (r: bool)
        ensures
            exists|now: int|
                #![trigger self@.spec_is_in_cooldown_at(now)]
                crate::time::MIN_UTC_NANOS <= now <= crate::time::MAX_UTC_NANOS && r == self@.spec_is_in_cooldown_at(now),
    {
        let now = crate::time::now_nanos();
        let r = self.is_in_cooldown_at(now);
        assert(r == self@.spec_is_in_cooldown_at(now as int));
        r
    }

    /// A copy with the same view.
    pub fn duplicate(&self) -> (r: Self)
        ensures
            r@ == self@,
    {
        let mut ids: Vec<String> = Vec::new();
        let mut i: usize = 0;
        while i < self.config_instance_ids.len()
            invariant
                i <= self.config_instance_ids@.len(),
                ids@.map_values(|s: String| s@) == self.config_instance_ids@.take(i as int).map_values(
                    |s: String| s@,
                ),
            decreases self.config_instance_ids@.len() - i,
        {
            let ghost before = ids@;
            ids.push(self.config_instance_ids[i].clone());
            assert(self.config_instance_ids@.take(i + 1) =~= self.config_instance_ids@.take(
                i as int,
            ).push(self.config_instance_ids@[i as int]));
            assert(ids@.map_values(|s: String| s@) =~= before.map_values(|s: String| s@).push(
                self.config_instance_ids@[i as int]@,
            ));
            i = i + 1;
        }
        assert(self.config_instance_ids@.take(self.config_instance_ids@.len() as int)
            =~= self.config_instance_ids@);
        Deployment {
            id: self.id.clone(),
            target_status: self.target_status,
            activity_status: self.activity_status,
            error_status: self.error_status,
            attempts: self.attempts,
            cooldown_ends_at: self.cooldown_ends_at,
            config_instance_ids: ids,
        }
    }

    /// Apply `updates` at instant `now`: each `Some` field replaces the current value,
    /// and a cooldown of `c` seconds makes the cooldown end at `now + c` (held within
    /// the range of representable instants).
    pub fn patch_at(&mut self, updates: Updates, now: i128)
        requires
            crate::time::valid_instant(now as int),
            updates.cooldown matches Some(c) ==> crate::time::valid_delta(c as int),
        ensures
            final(self)@ == old(self)@.spec_patched(updates, now as int),
    {
        if let Some(a) = updates.activity_status {
            self.activity_status = a;
        }
        if let Some(e) = updates.error_status {
            self.error_status = e;
        }
        if let Some(n) = updates.attempts {
            self.attempts = n;
        }
        if let Some(c) = updates.cooldown {
            self.cooldown_ends_at = crate::time::clamp_add_secs(now, c);
        }
    }
}

/// How long a file is kept on disk before it is deleted, and whether it must be
/// uploaded first.
#[derive(Debug, Clone, Copy, PartialEq, Eq, Structural)]
pub struct FileRuleRetention {
    pub ttl_secs: u64,
    pub require_upload: bool,
}

/// Where a file rule finds its files: a glob, and how long a file must stay unchanged
/// before it counts as stable.
#[derive(Debug, Clone, PartialEq, Eq)]
pub struct FileRuleSource {
    pub glob: String,
    pub stability_window_secs: i64,
}

/// Where a file rule uploads its files.
#[derive(Debug, Clone, PartialEq, Eq)]
pub struct FileRuleUpload {
    pub upload_collection_id: String,
}

/// A rule of a deployment that watches files for upload and retention.
#[derive(Debug, Clone, PartialEq, Eq)]
pub struct FileRule {
    pub id: String,
    pub source: FileRuleSource,
    pub upload: Option<FileRuleUpload>,
    pub retention: Option<FileRuleRetention>,
}

} // verus!
