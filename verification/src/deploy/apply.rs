use vstd::prelude::*;

use crate::deploy::errors::{ConflictingDeploymentsErr, DeployErr, GenericErr};
use crate::deploy::fsm::{self, spec_next_action_at, NextAction, RetryPolicy};
use crate::models::{Deployment, DeploymentView, DplErrStatus, DplTarget};

verus! {

/// Options of a deploy pass.
pub struct DeployOpts {
    pub retry_policy: RetryPolicy,
}

/// Deployments sorted by what the state machine asks of them.
pub struct Categorized {
    pub none: Vec<Deployment>,
    pub wait: Vec<Deployment>,
    pub target_deployed: Option<Deployment>,
    pub remove: Vec<Deployment>,
    pub archive: Vec<Deployment>,
}

/// A deployment competes to be the deployed one when it targets the deployed status
/// and has not failed.
pub open spec fn is_deploy_candidate(d: DeploymentView) -> bool {
    d.target_status == DplTarget::Deployed && d.error_status != DplErrStatus::Failed
}

/// The deploy candidates among `ds[0..n]`, in order.
pub open spec fn spec_candidates(ds: Seq<DeploymentView>, n: int) -> Seq<DeploymentView>
    decreases n,
{
    if n <= 0 {
        Seq::empty()
    } else if is_deploy_candidate(ds[n - 1]) {
        spec_candidates(ds, n - 1).push(ds[n - 1])
    } else {
        spec_candidates(ds, n - 1)
    }
}

/// The views of a sequence of deployments.
pub open spec fn views(ds: Seq<Deployment>) -> Seq<DeploymentView> {
    ds.map_values(|d: Deployment| d@)
}

/// The view of an optional deployment.
pub open spec fn opt_dpl_view(d: Option<Deployment>) -> Option<DeploymentView> {
    match d {
        Some(t) => Some(t@),
        None => None,
    }
}

/// The one deployment that targets the deployed status without having failed, if any;
/// more than one is a conflict that names them all, in order.
pub fn find_target_deployed(deployments: &[Deployment]) -> (r: Result<Option<Deployment>, DeployErr>)
    ensures
        ({
            let c = spec_candidates(views(deployments@), deployments@.len() as int);
            &&& c.len() == 0 ==> (r matches Ok(None))
            &&& c.len() == 1 ==> (r matches Ok(Some(t)) && t@ == c[0])
            &&& c.len() > 1 ==> (r matches Err(DeployErr::ConflictingDeployments(e))
                && e.ids@.map_values(|s: String| s@) == c.map_values(|d: DeploymentView| d.id))
        }),
{
    let ghost ds = views(deployments@);
    let mut found: Vec<Deployment> = Vec::new();
    let n = deployments.len();
    let mut i: usize = 0;
    while i < n
        invariant
            n == deployments@.len(),
            ds == views(deployments@),
            i <= n,
            views(found@) == spec_candidates(ds, i as int),
        decreases n - i,
    {
        let d = &deployments[i];
        assert(ds[i as int] == d@);
        if d.target_status == DplTarget::Deployed && d.error_status != DplErrStatus::Failed {
            let ghost before = found@;
            found.push(d.duplicate());
            assert(views(found@) =~= views(before).push(d@));
        }
        i = i + 1;
    }
    let ghost c = spec_candidates(ds, n as int);
    if found.len() > 1 {
        let mut ids: Vec<String> = Vec::new();
        let mut k: usize = 0;
        while k < found.len()
            invariant
                views(found@) == c,
                k <= found@.len(),
                ids@.map_values(|s: String| s@) == c.take(k as int).map_values(
                    |d: DeploymentView| d.id,
                ),
            decreases found@.len() - k,
        {
            let ghost before = ids@;
            ids.push(found[k].id.clone());
            assert(c[k as int] == found@[k as int]@);
            assert(c.take(k + 1) =~= c.take(k as int).push(c[k as int]));
            assert(ids@.map_values(|s: String| s@) =~= before.map_values(|s: String| s@).push(
                c[k as int].id,
            ));
            k = k + 1;
        }
        assert(c.take(c.len() as int) =~= c);
        return Err(DeployErr::ConflictingDeployments(ConflictingDeploymentsErr { ids }));
    }
    if found.len() == 1 {
        assert(c[0] == found@[0]@);
        return Ok(Some(found[0].duplicate()));
    }
    Ok(None)
}

/// The id of an optional deployment.
pub open spec fn opt_id(d: Option<DeploymentView>) -> Option<Seq<char>> {
    match d {
        Some(t) => Some(t.id),
        None => None,
    }
}

/// Whether `d` is the target deployment named by `target_id`.
pub open spec fn is_target(d: DeploymentView, target_id: Option<Seq<char>>) -> bool {
    target_id matches Some(id) && d.id == id
}

/// The deployments among `ds[0..n]` that are not the target and whose action at `now`
/// satisfies `pick`, in order.
pub open spec fn spec_bucket(
    ds: Seq<DeploymentView>,
    now: int,
    target_id: Option<Seq<char>>,
    pick: spec_fn(NextAction) -> bool,
    n: int,
) -> Seq<DeploymentView>
    decreases n,
{
    if n <= 0 {
        Seq::empty()
    } else {
        let prev = spec_bucket(ds, now, target_id, pick, n - 1);
        let d = ds[n - 1];
        if !is_target(d, target_id) && pick(spec_next_action_at(d, now)) {
            prev.push(d)
        } else {
            prev
        }
    }
}

pub open spec fn is_wait(a: NextAction) -> bool {
    a is Wait
}

pub open spec fn is_remove(a: NextAction) -> bool {
    a == NextAction::Remove
}

pub open spec fn is_archive(a: NextAction) -> bool {
    a == NextAction::Archive
}

pub open spec fn is_deploy(a: NextAction) -> bool {
    a == NextAction::Deploy
}

/// The error for a non-target deployment `d` that asks to be deployed: a conflict with
/// the target when there is one, else an internal error.
pub open spec fn is_unexpected_deploy_err(d: DeploymentView, target: Option<DeploymentView>, e: DeployErr) -> bool {
    match target {
        Some(t) => e matches DeployErr::ConflictingDeployments(c) && c.ids@.len() == 2 && c.ids@[0]@
            == d.id && c.ids@[1]@ == t.id,
        None => e is GenericErr,
    }
}

/// Sort the deployments (the stored ones, at instant `now`) into the target deployment
/// and the non-target ones that must wait, be removed or be archived; deployments
/// with no action are left out. A non-target deployment that asks to be deployed is
/// an error, as is more than one target.
pub fn read_deployments_at(deployments: &[Deployment], now: i128) -> (r: Result<Categorized, DeployErr>)
    ensures
        ({
            let ds = views(deployments@);
            let c = spec_candidates(ds, ds.len() as int);
            let target = if c.len() == 1 {
                Some(c[0])
            } else {
                None::<DeploymentView>
            };
            let tid = opt_id(target);
            let deploys = spec_bucket(ds, now as int, tid, |a: NextAction| is_deploy(a), ds.len() as int);
            &&& c.len() > 1 ==> (r matches Err(DeployErr::ConflictingDeployments(e))
                && e.ids@.map_values(|s: String| s@) == c.map_values(|d: DeploymentView| d.id))
            &&& c.len() <= 1 && deploys.len() > 0 ==> (r matches Err(e)
                && is_unexpected_deploy_err(deploys[0], target, e))
            &&& c.len() <= 1 && deploys.len() == 0 ==> (r matches Ok(cat)
                && opt_dpl_view(cat.target_deployed) == target
                && cat.none@.len() == 0
                && views(cat.wait@) == spec_bucket(ds, now as int, tid, |a: NextAction| is_wait(a), ds.len() as int)
                && views(cat.remove@) == spec_bucket(ds, now as int, tid, |a: NextAction| is_remove(a), ds.len() as int)
                && views(cat.archive@) == spec_bucket(ds, now as int, tid, |a: NextAction| is_archive(a), ds.len() as int))
        }),
{
    let target_deployed = match find_target_deployed(deployments) {
        Ok(t) => t,
        Err(e) => return Err(e),
    };
    let ghost ds = views(deployments@);
    let ghost c = spec_candidates(ds, ds.len() as int);
    assert(c.len() <= 1);
    assert(opt_dpl_view(target_deployed) == (if c.len() == 1 {
        Some(c[0])
    } else {
        None::<DeploymentView>
    }));
    let ghost tid = opt_id(opt_dpl_view(target_deployed));
    let mut wait: Vec<Deployment> = Vec::new();
    let mut remove: Vec<Deployment> = Vec::new();
    let mut archive: Vec<Deployment> = Vec::new();
    let n = deployments.len();
    let mut i: usize = 0;
    while i < n
        invariant
            n == ds.len(),
            ds == views(deployments@),
            i <= n,
            tid == opt_id(opt_dpl_view(target_deployed)),
            c == spec_candidates(ds, ds.len() as int),
            c.len() <= 1,
            opt_dpl_view(target_deployed) == (if c.len() == 1 {
                Some(c[0])
            } else {
                None::<DeploymentView>
            }),
            spec_bucket(ds, now as int, tid, |a: NextAction| is_deploy(a), i as int).len() == 0,
            views(wait@) == spec_bucket(ds, now as int, tid, |a: NextAction| is_wait(a), i as int),
            views(remove@) == spec_bucket(ds, now as int, tid, |a: NextAction| is_remove(a), i as int),
            views(archive@) == spec_bucket(ds, now as int, tid, |a: NextAction| is_archive(a), i as int),
        decreases n - i,
    {
        let d = &deployments[i];
        assert(ds[i as int] == d@);
        let skip = match &target_deployed {
            Some(t) => d.id == t.id,
            None => false,
        };
        assert(skip == is_target(d@, tid));
        if !skip {
            let action = fsm::next_action_at(d, now);
            match action {
                NextAction::NoAction => {},
                NextAction::Wait(_) => {
                    let ghost before = wait@;
                    wait.push(d.duplicate());
                    assert(views(wait@) =~= views(before).push(d@));
                },
                NextAction::Deploy => {
                    let e = match &target_deployed {
                        Some(t) => DeployErr::ConflictingDeployments(
                            ConflictingDeploymentsErr { ids: vec![d.id.clone(), t.id.clone()] },
                        ),
                        None => DeployErr::GenericErr(
                            GenericErr {
                                msg: "found unexpected deployment desiring to be deployed which did not match initial target deployment criteria".to_owned(),
                            },
                        ),
                    };
                    proof {
                        match &target_deployed {
                            Some(t) => {
                                assert(e matches DeployErr::ConflictingDeployments(ce) && ce.ids@.len() == 2 && ce.ids@[0]@ == d@.id && ce.ids@[1]@ == t@.id);
                            },
                            None => {},
                        }
                        assert(is_unexpected_deploy_err(d@, opt_dpl_view(target_deployed), e));
                        let deploys = spec_bucket(ds, now as int, tid, |a: NextAction| is_deploy(a), (i + 1) as int);
                        assert(deploys =~= seq![d@]);
                        lemma_bucket_prefix(ds, now as int, tid, |a: NextAction| is_deploy(a), (i + 1) as int, n as int);
                        let full = spec_bucket(ds, now as int, tid, |a: NextAction| is_deploy(a), n as int);
                        assert(full[0] == deploys[0]);
                        assert(full.len() > 0);
                        assert(is_unexpected_deploy_err(full[0], opt_dpl_view(target_deployed), e));
                        assert(c.len() <= 1);
                    }
                    return Err(e);
                },
                NextAction::Remove => {
                    let ghost before = remove@;
                    remove.push(d.duplicate());
                    assert(views(remove@) =~= views(before).push(d@));
                },
                NextAction::Archive => {
                    let ghost before = archive@;
                    archive.push(d.duplicate());
                    assert(views(archive@) =~= views(before).push(d@));
                },
            }
        }
        i = i + 1;
    }
    Ok(Categorized { none: Vec::new(), wait, target_deployed, remove, archive })
}

/// A bucket of a prefix is a prefix of the bucket of a longer prefix.
proof fn lemma_bucket_prefix(
    ds: Seq<DeploymentView>,
    now: int,
    target_id: Option<Seq<char>>,
    pick: spec_fn(NextAction) -> bool,
    m: int,
    n: int,
)
    requires
        0 <= m <= n,
    ensures
        spec_bucket(ds, now, target_id, pick, m).len() <= spec_bucket(ds, now, target_id, pick, n).len(),
        forall|k: int|
            0 <= k < spec_bucket(ds, now, target_id, pick, m).len() ==> #[trigger] spec_bucket(
                ds,
                now,
                target_id,
                pick,
                n,
            )[k] == spec_bucket(ds, now, target_id, pick, m)[k],
    decreases n - m,
{
    if m < n {
        lemma_bucket_prefix(ds, now, target_id, pick, m, n - 1);
    }
}

impl Categorized {
    /// All sorted deployments except the target: no-action, wait, remove, archive.
    pub fn without_target_deployed(&self) -> (r: Vec<Deployment>)
        ensures
            views(r@) == views(self.none@) + views(self.wait@) + views(self.remove@) + views(
                self.archive@,
            ),
    {
        let mut out: Vec<Deployment> = Vec::new();
        append_clones(&mut out, &self.none);
        append_clones(&mut out, &self.wait);
        append_clones(&mut out, &self.remove);
        append_clones(&mut out, &self.archive);
        out
    }
}

fn append_clones(out: &mut Vec<Deployment>, src: &Vec<Deployment>)
    ensures
        views(final(out)@) == views(old(out)@) + views(src@),
{
    let mut i: usize = 0;
    while i < src.len()
        invariant
            i <= src@.len(),
            views(out@) == views(old(out)@) + views(src@.take(i as int)),
        decreases src@.len() - i,
    {
        let ghost before = out@;
        out.push(src[i].duplicate());
        assert(views(src@.take(i + 1)) =~= views(src@.take(i as int)).push(src@[i as int]@));
        assert(views(out@) =~= views(before).push(src@[i as int]@));
        i = i + 1;
    }
    assert(src@.take(src@.len() as int) =~= src@);
}

/// How long is left of the deployment's cooldown at `now`, if it is cooling down.
pub fn remaining_cooldown_at(deployment: &Deployment, now: i128) -> (r: Option<i128>)
    ensures
        deployment@.spec_is_in_cooldown_at(now as int) ==> r == Some(
            fsm::sat_i128(deployment.cooldown_ends_at - now) as i128,
        ),
        !deployment@.spec_is_in_cooldown_at(now as int) ==> r is None,
{
    if deployment.is_in_cooldown_at(now) {
        match deployment.cooldown_ends_at.checked_sub(now) {
            Some(w) => Some(w),
            None => Some(i128::MAX),
        }
    } else {
        None
    }
}

/// What applying the state machine to one deployment came to.
#[derive(Debug)]
pub struct Outcome {
    pub deployment: Deployment,
    /// The remaining cooldown, in nanoseconds, when the deployment is cooling down.
    pub wait: Option<i128>,
    pub error: Option<DeployErr>,
    /// Whether the state machine moved the deployment (deploy, remove, archive).
    pub transitioned: bool,
}

/// The outcome for a deployment the state machine leaves alone at `now`: none, or
/// waiting out its cooldown.
pub fn idle_outcome_at(deployment: Deployment, now: i128) -> (r: Outcome)
    ensures
        r.deployment@ == deployment@,
        r.error is None,
        !r.transitioned,
        r.wait == match spec_next_action_at(deployment@, now as int) {
            NextAction::Wait(w) => Some(w),
            _ => None::<i128>,
        },
{
    let wait = match fsm::next_action_at(&deployment, now) {
        NextAction::Wait(w) => Some(w),
        _ => None,
    };
    Outcome { deployment, wait, error: None, transitioned: false }
}

/// The outcome of a deploy at `now` whose filesystem work returned `result`: a
/// success records the deploy; a failure records a counted error and reports the
/// remaining cooldown.
pub fn after_deploy_at(
    deployment: Deployment,
    result: Result<(), DeployErr>,
    opts: &DeployOpts,
    now: i128,
) -> (r: Outcome)
    requires
        crate::time::valid_instant(now as int),
        fsm::spec_error_cooldown_fits(deployment@, true, opts.retry_policy),
    ensures
        r.transitioned,
        match result {
            Ok(()) => r.deployment@ == fsm::spec_deploy_at(deployment@, now as int) && r.error is None
                && r.wait is None,
            Err(e) => {
                &&& r.deployment@ == fsm::spec_error_at(deployment@, opts.retry_policy, true, now as int)
                &&& r.error == Some(e)
                &&& r.wait == if r.deployment@.spec_is_in_cooldown_at(now as int) {
                    Some(fsm::sat_i128(r.deployment.cooldown_ends_at - now) as i128)
                } else {
                    None::<i128>
                }
            },
        },
{
    match result {
        Ok(()) => {
            let deployment = fsm::deploy_at(deployment, now);
            Outcome { deployment, wait: None, error: None, transitioned: true }
        },
        Err(e) => {
            let deployment = fsm::error_at(deployment, &opts.retry_policy, &e, true, now);
            let wait = remaining_cooldown_at(&deployment, now);
            Outcome { deployment, wait, error: Some(e), transitioned: true }
        },
    }
}

/// The outcome of a removal at `now` whose filesystem work returned `result`: a
/// success records the removal (the deployment is archived); a failure records a
/// counted error and reports the remaining cooldown.
pub fn after_remove_at(
    deployment: Deployment,
    result: Result<(), DeployErr>,
    opts: &DeployOpts,
    now: i128,
) -> (r: Outcome)
    requires
        crate::time::valid_instant(now as int),
        fsm::spec_error_cooldown_fits(deployment@, true, opts.retry_policy),
    ensures
        r.transitioned,
        match result {
            Ok(()) => r.deployment@ == fsm::spec_remove_at(deployment@, now as int) && r.error is None
                && r.wait is None,
            Err(e) => {
                &&& r.deployment@ == fsm::spec_error_at(deployment@, opts.retry_policy, true, now as int)
                &&& r.error == Some(e)
                &&& r.wait == if r.deployment@.spec_is_in_cooldown_at(now as int) {
                    Some(fsm::sat_i128(r.deployment.cooldown_ends_at - now) as i128)
                } else {
                    None::<i128>
                }
            },
        },
{
    match result {
        Ok(()) => {
            let deployment = fsm::remove_at(deployment, now);
            Outcome { deployment, wait: None, error: None, transitioned: true }
        },
        Err(e) => {
            let deployment = fsm::error_at(deployment, &opts.retry_policy, &e, true, now);
            let wait = remaining_cooldown_at(&deployment, now);
            Outcome { deployment, wait, error: Some(e), transitioned: true }
        },
    }
}

/// The outcome of the archive that the state machine asks for, at `now`: the deployment
/// becomes archived (as after a removal, with no files to delete), and nothing failed.
pub fn after_archive_at(deployment: Deployment, now: i128) -> (r: Outcome)
    requires
        crate::time::valid_instant(now as int),
    ensures
        r.deployment@ == fsm::spec_remove_at(deployment@, now as int),
        r.wait is None,
        r.error is None,
        r.transitioned,
{
    let deployment = fsm::remove_at(deployment, now);
    Outcome { deployment, wait: None, error: None, transitioned: true }
}

/// What applying the state machine to one deployment asks for next.
#[derive(Debug)]
pub enum ApplyStep {
    /// Nothing more to do: this is the outcome (no action, a wait, or an archive).
    Done(Outcome),
    /// Write the deployment's config files, then record the result with
    /// `after_deploy_at`.
    Deploy(Deployment),
    /// Delete the deployment's config files, then record the result with
    /// `after_remove_at`.
    Remove(Deployment),
}

/// Dispatch one deployment on its next action at `now`: no action and waits are idle
/// outcomes, an archive is done at once, and a deploy or removal is handed back for its
/// filesystem work.
pub fn apply_step_at(deployment: Deployment, now: i128) -> (r: ApplyStep)
    requires
        crate::time::valid_instant(now as int),
    ensures
        match spec_next_action_at(deployment@, now as int) {
            NextAction::NoAction => r matches ApplyStep::Done(o) && o.deployment@ == deployment@
                && o.wait is None && o.error is None && !o.transitioned,
            NextAction::Wait(w) => r matches ApplyStep::Done(o) && o.deployment@ == deployment@
                && o.wait == Some(w) && o.error is None && !o.transitioned,
            NextAction::Archive => r matches ApplyStep::Done(o) && o.deployment@
                == fsm::spec_remove_at(deployment@, now as int) && o.wait is None && o.error is None
                && o.transitioned,
            NextAction::Deploy => r matches ApplyStep::Deploy(d) && d@ == deployment@,
            NextAction::Remove => r matches ApplyStep::Remove(d) && d@ == deployment@,
        },
{
    match fsm::next_action_at(&deployment, now) {
        NextAction::NoAction | NextAction::Wait(_) => ApplyStep::Done(idle_outcome_at(deployment, now)),
        NextAction::Archive => ApplyStep::Done(after_archive_at(deployment, now)),
        NextAction::Deploy => ApplyStep::Deploy(deployment),
        NextAction::Remove => ApplyStep::Remove(deployment),
    }
}

/// An outcome after its deployment was written to storage with result `stored`: a
/// failed write becomes the outcome's error unless the step itself already failed (then
/// the write's failure is only reported by the caller).
pub fn with_store_result(outcome: Outcome, stored: Result<(), DeployErr>) -> (r: Outcome)
    ensures
        r.deployment == outcome.deployment,
        r.wait == outcome.wait,
        r.transitioned == outcome.transitioned,
        r.error == match outcome.error {
            Some(e) => Some(e),
            None => match stored {
                Ok(()) => None::<DeployErr>,
                Err(e) => Some(e),
            },
        },
{
    match outcome.error {
        Some(e) => Outcome { error: Some(e), ..outcome },
        None => match stored {
            Ok(()) => outcome,
            Err(e) => Outcome { error: Some(e), ..outcome },
        },
    }
}

impl Categorized {
    /// The deployments to apply after the target one. When the target failed, only
    /// archives and waits follow: removals could delete files the retrying target
    /// still needs. Otherwise every non-target deployment follows.
    pub fn followers(&self, target_failed: bool) -> (r: Vec<Deployment>)
        ensures
            target_failed ==> views(r@) == views(self.archive@) + views(self.wait@),
            !target_failed ==> views(r@) == views(self.none@) + views(self.wait@) + views(
                self.remove@,
            ) + views(self.archive@),
    {
        if target_failed {
            let mut out: Vec<Deployment> = Vec::new();
            append_clones(&mut out, &self.archive);
            append_clones(&mut out, &self.wait);
            out
        } else {
            self.without_target_deployed()
        }
    }
}

} // verus!
