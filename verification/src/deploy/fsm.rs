use vstd::prelude::*;

use crate::cooldown;
use crate::errors::ErrorClass;
use crate::models::{Deployment, DeploymentView, DplActivity, DplErrStatus, DplTarget, Updates};
use crate::time;

verus! {

/// What the agent should do next with a deployment.
#[derive(Debug, Clone, Copy, PartialEq, Eq, Structural)]
pub enum NextAction {
    NoAction,
    Deploy,
    Remove,
    Archive,
    /// Wait this many nanoseconds for the cooldown to end.
    Wait(i128),
}

/// The state-machine table: the action that moves `activity` towards `target`.
///
///  target\activity | Drifted | Staged  | Queued  | Deployed | Archived
///  ----------------+---------+---------+---------+----------+---------
///  Staged          | none    | none    | Archive | Remove   | none
///  Deployed        | none    | none    | Deploy  | none     | Deploy
///  Archived        | Archive | Archive | Archive | Remove   | none
pub open spec fn spec_table_action(target: DplTarget, activity: DplActivity) -> NextAction {
    match target {
        DplTarget::Staged => match activity {
            DplActivity::Queued => NextAction::Archive,
            DplActivity::Deployed => NextAction::Remove,
            _ => NextAction::NoAction,
        },
        DplTarget::Deployed => match activity {
            DplActivity::Queued => NextAction::Deploy,
            DplActivity::Archived => NextAction::Deploy,
            _ => NextAction::NoAction,
        },
        DplTarget::Archived => match activity {
            DplActivity::Deployed => NextAction::Remove,
            DplActivity::Archived => NextAction::NoAction,
            _ => NextAction::Archive,
        },
    }
}

/// `x` held within the range of `i128`.
pub open spec fn sat_i128(x: int) -> int {
    if x > i128::MAX {
        i128::MAX as int
    } else if x < i128::MIN {
        i128::MIN as int
    } else {
        x
    }
}

/// The next action at instant `now`: nothing for a failed deployment, a wait while it
/// cools down, otherwise the table's action.
pub open spec fn spec_next_action_at(d: DeploymentView, now: int) -> NextAction {
    if d.error_status == DplErrStatus::Failed {
        NextAction::NoAction
    } else if d.cooldown_ends_at > now {
        NextAction::Wait(sat_i128(d.cooldown_ends_at - now) as i128)
    } else {
        spec_table_action(d.target_status, d.activity_status)
    }
}

fn table_action(target: DplTarget, activity: DplActivity) -> (r: NextAction)
    ensures
        r == spec_table_action(target, activity),
{
    match target {
        DplTarget::Staged => match activity {
            DplActivity::Drifted => NextAction::NoAction,
            DplActivity::Staged => NextAction::NoAction,
            DplActivity::Queued => NextAction::Archive,
            DplActivity::Deployed => NextAction::Remove,
            DplActivity::Archived => NextAction::NoAction,
        },
        DplTarget::Deployed => match activity {
            DplActivity::Drifted => NextAction::NoAction,
            DplActivity::Staged => NextAction::NoAction,
            DplActivity::Queued => NextAction::Deploy,
            DplActivity::Deployed => NextAction::NoAction,
            DplActivity::Archived => NextAction::Deploy,
        },
        DplTarget::Archived => match activity {
            DplActivity::Drifted => NextAction::Archive,
            DplActivity::Staged => NextAction::Archive,
            DplActivity::Queued => NextAction::Archive,
            DplActivity::Deployed => NextAction::Remove,
            DplActivity::Archived => NextAction::NoAction,
        },
    }
}

/// The next action for `deployment` at instant `now`.
pub fn next_action_at(deployment: &Deployment, now: i128) -> (r: NextAction)
    ensures
        r == spec_next_action_at(deployment@, now as int),
{
    if deployment.error_status == DplErrStatus::Failed {
        return NextAction::NoAction;
    }
    if deployment.is_in_cooldown_at(now) {
        let wait = match deployment.cooldown_ends_at.checked_sub(now) {
            Some(w) => w,
            None => i128::MAX,
        };
        return NextAction::Wait(wait);
    }
    table_action(deployment.target_status, deployment.activity_status)
}

/// The next action for `deployment` at the current wall-clock time.
pub fn next_action(deployment: &Deployment) -> (r: NextAction)
    ensures
        exists|now: int|
            #![trigger spec_next_action_at(deployment@, now)]
            time::MIN_UTC_NANOS <= now <= time::MAX_UTC_NANOS && r == spec_next_action_at(deployment@, now),
{
    let now = time::now_nanos();
    let r = next_action_at(deployment, now);
    assert(r == spec_next_action_at(deployment@, now as int));
    r
}

/// Retry limits and backoff for failing deployments.
#[derive(Debug, Clone, Copy)]
pub struct RetryPolicy {
    pub max_attempts: u32,
    pub backoff: cooldown::Backoff,
}

impl RetryPolicy {
    /// Practically unlimited attempts, with a cooldown of 15s doubling up to 24 hours.
    pub fn default() -> (r: RetryPolicy)
        ensures
            r.max_attempts == 2147483647,
            r.backoff.base_secs == 15,
            r.backoff.growth_factor == 2,
            r.backoff.max_secs == 86400,
    {
        RetryPolicy {
            max_attempts: 2147483647,
            backoff: cooldown::Backoff { base_secs: 15, growth_factor: 2, max_secs: 86400 },
        }
    }
}

// ================================== TRANSITIONS ================================== //

/// Whether reaching `new_activity` means a retrying deployment has met its target:
/// staged is met by anything but deployed; deployed and archived only by themselves.
pub open spec fn spec_has_recovered(d: DeploymentView, new_activity: DplActivity) -> bool {
    d.error_status == DplErrStatus::Retrying && match d.target_status {
        DplTarget::Staged => new_activity != DplActivity::Deployed,
        DplTarget::Deployed => new_activity == DplActivity::Deployed,
        DplTarget::Archived => new_activity == DplActivity::Archived,
    }
}

pub fn has_recovered(deployment: &Deployment, new_activity: DplActivity) -> (r: bool)
    ensures
        r == spec_has_recovered(deployment@, new_activity),
{
    if deployment.error_status != DplErrStatus::Retrying {
        return false;
    }
    match deployment.target_status {
        DplTarget::Staged => match new_activity {
            DplActivity::Drifted => true,
            DplActivity::Staged => true,
            DplActivity::Queued => true,
            DplActivity::Deployed => false,
            DplActivity::Archived => true,
        },
        DplTarget::Deployed => match new_activity {
            DplActivity::Drifted => false,
            DplActivity::Staged => false,
            DplActivity::Queued => false,
            DplActivity::Deployed => true,
            DplActivity::Archived => false,
        },
        DplTarget::Archived => match new_activity {
            DplActivity::Drifted => false,
            DplActivity::Staged => false,
            DplActivity::Queued => false,
            DplActivity::Deployed => false,
            DplActivity::Archived => true,
        },
    }
}

/// The updates for a successful move to `new_activity`: on recovery the error status,
/// attempt count and cooldown are cleared; otherwise only the activity changes.
pub open spec fn spec_success_updates(d: DeploymentView, new_activity: DplActivity) -> Updates {
    if spec_has_recovered(d, new_activity) {
        Updates {
            activity_status: Some(new_activity),
            error_status: Some(DplErrStatus::NoError),
            attempts: Some(0),
            cooldown: Some(0),
        }
    } else {
        Updates {
            activity_status: Some(new_activity),
            error_status: None,
            attempts: None,
            cooldown: None,
        }
    }
}

fn get_success_updates(deployment: &Deployment, new_activity: DplActivity) -> (r: Updates)
    ensures
        r == spec_success_updates(deployment@, new_activity),
{
    let recovered = has_recovered(deployment, new_activity);
    Updates {
        activity_status: Some(new_activity),
        error_status: if recovered {
            Some(DplErrStatus::NoError)
        } else {
            None
        },
        attempts: if recovered {
            Some(0)
        } else {
            None
        },
        cooldown: if recovered {
            Some(0)
        } else {
            None
        },
    }
}

/// The deployment after a successful deploy at instant `now`.
pub open spec fn spec_deploy_at(d: DeploymentView, now: int) -> DeploymentView {
    d.spec_patched(spec_success_updates(d, DplActivity::Deployed), now)
}

/// The deployment after a successful removal at instant `now`.
pub open spec fn spec_remove_at(d: DeploymentView, now: int) -> DeploymentView {
    d.spec_patched(spec_success_updates(d, DplActivity::Archived), now)
}

/// Record a successful deploy at instant `now`.
pub fn deploy_at(deployment: Deployment, now: i128) -> (r: Deployment)
    requires
        time::valid_instant(now as int),
    ensures
        r@ == spec_deploy_at(deployment@, now as int),
{
    let mut deployment = deployment;
    let patch = get_success_updates(&deployment, DplActivity::Deployed);
    deployment.patch_at(patch, now);
    deployment
}

/// Record a successful deploy at the current wall-clock time.
pub fn deploy(deployment: Deployment) -> (r: Deployment)
    ensures
        exists|now: int|
            #![trigger spec_deploy_at(deployment@, now)]
            time::MIN_UTC_NANOS <= now <= time::MAX_UTC_NANOS && r@ == spec_deploy_at(deployment@, now),
{
    let now = time::now_nanos();
    let r = deploy_at(deployment, now);
    assert(r@ == spec_deploy_at(deployment@, now as int));
    r
}

/// Record a successful removal (the deployment becomes archived) at instant `now`.
pub fn remove_at(deployment: Deployment, now: i128) -> (r: Deployment)
    requires
        time::valid_instant(now as int),
    ensures
        r@ == spec_remove_at(deployment@, now as int),
{
    let mut deployment = deployment;
    let patch = get_success_updates(&deployment, DplActivity::Archived);
    deployment.patch_at(patch, now);
    deployment
}

/// Record a successful removal at the current wall-clock time.
pub fn remove(deployment: Deployment) -> (r: Deployment)
    ensures
        exists|now: int|
            #![trigger spec_remove_at(deployment@, now)]
            time::MIN_UTC_NANOS <= now <= time::MAX_UTC_NANOS && r@ == spec_remove_at(deployment@, now),
{
    let now = time::now_nanos();
    let r = remove_at(deployment, now);
    assert(r@ == spec_remove_at(deployment@, now as int));
    r
}

/// Failed attempts after an error: one more when the error counts (saturating).
pub open spec fn spec_error_attempts(d: DeploymentView, bump_attempts: bool) -> u32 {
    if bump_attempts {
        if d.attempts == u32::MAX {
            u32::MAX
        } else {
            (d.attempts + 1) as u32
        }
    } else {
        d.attempts
    }
}

/// The updates for a failed transition: the attempt count (bumped when the error
/// counts), `Failed` once the count reaches the limit or if already failed, else
/// `Retrying`, and the backoff for that count as the new cooldown.
pub open spec fn spec_error_updates(
    d: DeploymentView,
    bump_attempts: bool,
    retry_policy: RetryPolicy,
) -> Updates {
    let attempts = spec_error_attempts(d, bump_attempts);
    Updates {
        activity_status: None,
        error_status: Some(
            if attempts >= retry_policy.max_attempts || d.error_status == DplErrStatus::Failed {
                DplErrStatus::Failed
            } else {
                DplErrStatus::Retrying
            },
        ),
        attempts: Some(attempts),
        cooldown: Some(cooldown::spec_calc(retry_policy.backoff, attempts as nat) as i64),
    }
}

/// Whether the backoff after the given failure fits a `chrono::TimeDelta`; beyond that
/// range the conversion panics.
pub open spec fn spec_error_cooldown_fits(
    d: DeploymentView,
    bump_attempts: bool,
    retry_policy: RetryPolicy,
) -> bool {
    time::valid_delta(
        cooldown::spec_calc(retry_policy.backoff, spec_error_attempts(d, bump_attempts) as nat),
    )
}

/// The deployment after a failure at instant `now`; `counted` says whether the failure
/// counts towards the attempt limit.
pub open spec fn spec_error_at(
    d: DeploymentView,
    retry_policy: RetryPolicy,
    counted: bool,
    now: int,
) -> DeploymentView {
    d.spec_patched(spec_error_updates(d, counted, retry_policy), now)
}

/// Whether a failure counts towards the attempt limit: the caller asks for it and the
/// error is not a network-connection error.
pub open spec fn spec_counts<E: ErrorClass>(e: &E, bump_attempts: bool) -> bool {
    bump_attempts && !e.spec_is_network_conn_err()
}

/// Errors count towards the attempt limit unless they are network-connection errors.
pub fn should_bump_attempts<E: ErrorClass>(e: &E) -> (r: bool)
    ensures
        r == !e.spec_is_network_conn_err(),
{
    !e.is_network_conn_err()
}

fn get_error_updates(deployment: &Deployment, bump_attempts: bool, retry_policy: &RetryPolicy) -> (r:
    Updates)
    ensures
        r == spec_error_updates(deployment@, bump_attempts, *retry_policy),
{
    let attempts = if bump_attempts {
        deployment.attempts.saturating_add(1)
    } else {
        deployment.attempts
    };
    let mut new_error_status = Some(DplErrStatus::Retrying);
    if attempts >= retry_policy.max_attempts || deployment.error_status == DplErrStatus::Failed {
        new_error_status = Some(DplErrStatus::Failed);
    }
    let cd = cooldown::calc(&retry_policy.backoff, attempts);
    Updates {
        activity_status: None,
        error_status: new_error_status,
        attempts: Some(attempts),
        cooldown: Some(cd),
    }
}

/// Record a failed transition at instant `now`. The failure counts towards the attempt
/// limit when `bump_attempts` is set and `e` is not a network-connection error.
pub fn error_at<E: ErrorClass>(
    deployment: Deployment,
    retry_policy: &RetryPolicy,
    e: &E,
    bump_attempts: bool,
    now: i128,
) -> (r: Deployment)
    requires
        time::valid_instant(now as int),
        spec_error_cooldown_fits(
            deployment@,
            spec_counts(e, bump_attempts),
            *retry_policy,
        ),
    ensures
        r@ == spec_error_at(
            deployment@,
            *retry_policy,
            spec_counts(e, bump_attempts),
            now as int,
        ),
{
    let mut deployment = deployment;
    let counted = bump_attempts && should_bump_attempts(e);
    let patch = get_error_updates(&deployment, counted, retry_policy);
    deployment.patch_at(patch, now);
    deployment
}

/// Record a failed transition at the current wall-clock time.
pub fn error<E: ErrorClass>(
    deployment: Deployment,
    retry_policy: &RetryPolicy,
    e: &E,
    bump_attempts: bool,
) -> (r: Deployment)
    requires
        spec_error_cooldown_fits(
            deployment@,
            spec_counts(e, bump_attempts),
            *retry_policy,
        ),
    ensures
        exists|now: int|
            #![trigger spec_error_at(deployment@, *retry_policy, spec_counts(e, bump_attempts), now)]
            time::MIN_UTC_NANOS <= now <= time::MAX_UTC_NANOS && r@ == spec_error_at(
                deployment@,
                *retry_policy,
                spec_counts(e, bump_attempts),
                now,
            ),
{
    let now = time::now_nanos();
    let r = error_at(deployment, retry_policy, e, bump_attempts, now);
    assert(r@ == spec_error_at(
        deployment@,
        *retry_policy,
        spec_counts(e, bump_attempts),
        now as int,
    ));
    r
}

// ===================================== LAWS ====================================== //

/// A failed deployment stays failed: it has no next action, and neither a success nor
/// a further failure takes it out of `Failed`.
pub proof fn lemma_failed_is_absorbing(
    d: DeploymentView,
    retry_policy: RetryPolicy,
    counted: bool,
    now: int,
)
    requires
        d.error_status == DplErrStatus::Failed,
    ensures
        spec_next_action_at(d, now) == NextAction::NoAction,
        spec_deploy_at(d, now).error_status == DplErrStatus::Failed,
        spec_remove_at(d, now).error_status == DplErrStatus::Failed,
        spec_error_at(d, retry_policy, counted, now).error_status == DplErrStatus::Failed,
{
}

/// Once the deploy that the state machine asks for succeeds, the deployment needs no
/// further action: it is deployed, any retrying status has recovered, and no cooldown
/// remains.
pub proof fn lemma_deploy_converges(d: DeploymentView, now: int)
    requires
        time::valid_instant(now),
        spec_next_action_at(d, now) == NextAction::Deploy,
    ensures
        spec_deploy_at(d, now).activity_status == DplActivity::Deployed,
        spec_deploy_at(d, now).error_status == DplErrStatus::NoError,
        spec_next_action_at(spec_deploy_at(d, now), now) == NextAction::NoAction,
{
}

/// Once the removal that the state machine asks for succeeds, the deployment is
/// archived, has recovered from any retrying status, and needs no further action.
pub proof fn lemma_remove_converges(d: DeploymentView, now: int)
    requires
        time::valid_instant(now),
        spec_next_action_at(d, now) == NextAction::Remove,
    ensures
        spec_remove_at(d, now).activity_status == DplActivity::Archived,
        spec_remove_at(d, now).error_status == DplErrStatus::NoError,
        spec_next_action_at(spec_remove_at(d, now), now) == NextAction::NoAction,
{
}

/// A failure never lowers the attempt count, adds exactly one when it counts (short of
/// saturation), and leaves the activity, target, id and config instances untouched.
pub proof fn lemma_error_attempts(
    d: DeploymentView,
    retry_policy: RetryPolicy,
    counted: bool,
    now: int,
)
    ensures
        spec_error_at(d, retry_policy, counted, now).attempts >= d.attempts,
        counted && d.attempts < u32::MAX ==> spec_error_at(d, retry_policy, counted, now).attempts
            == d.attempts + 1,
        !counted ==> spec_error_at(d, retry_policy, counted, now).attempts == d.attempts,
        spec_error_at(d, retry_policy, counted, now).activity_status == d.activity_status,
        spec_error_at(d, retry_policy, counted, now).target_status == d.target_status,
        spec_error_at(d, retry_policy, counted, now).id == d.id,
        spec_error_at(d, retry_policy, counted, now).config_instance_ids == d.config_instance_ids,
{
}

/// A failure that brings the attempt count to the limit marks the deployment failed;
/// below the limit a non-failed deployment is marked retrying.
pub proof fn lemma_error_status(
    d: DeploymentView,
    retry_policy: RetryPolicy,
    counted: bool,
    now: int,
)
    ensures
        spec_error_attempts(d, counted) >= retry_policy.max_attempts ==> spec_error_at(
            d,
            retry_policy,
            counted,
            now,
        ).error_status == DplErrStatus::Failed,
        spec_error_attempts(d, counted) < retry_policy.max_attempts && d.error_status
            != DplErrStatus::Failed ==> spec_error_at(d, retry_policy, counted, now).error_status
            == DplErrStatus::Retrying,
{
}

/// After a failure at `now` the cooldown ends no later than `now` plus the backoff cap.
pub proof fn lemma_error_cooldown_capped(
    d: DeploymentView,
    retry_policy: RetryPolicy,
    counted: bool,
    now: int,
)
    requires
        time::valid_instant(now),
        time::valid_instant(now + time::nanos_of(retry_policy.backoff.max_secs as int)),
    ensures
        spec_error_at(d, retry_policy, counted, now).cooldown_ends_at <= now
            + time::nanos_of(retry_policy.backoff.max_secs as int),
{
    cooldown::lemma_calc_capped(retry_policy.backoff, spec_error_attempts(d, counted) as nat);
}

/// A success that is not a recovery changes only the activity.
pub proof fn lemma_success_without_recovery(d: DeploymentView, now: int)
    requires
        !spec_has_recovered(d, DplActivity::Deployed),
    ensures
        spec_deploy_at(d, now) == (DeploymentView { activity_status: DplActivity::Deployed, ..d }),
{
}


/// After any failure the cooldown runs, from `now`, for exactly the backoff of the new
/// attempt count: `min(base * growth^attempts, max)` seconds (each step saturating),
/// the end held within the representable instants. Below the cap the cooldown is
/// `base * growth^attempts`.
pub proof fn lemma_error_cooldown_is_the_backoff(
    d: DeploymentView,
    retry_policy: RetryPolicy,
    counted: bool,
    now: int,
)
    ensures
        spec_error_at(d, retry_policy, counted, now).cooldown_ends_at == time::clamp_instant(
            now + time::nanos_of(
                cooldown::spec_calc(
                    retry_policy.backoff,
                    spec_error_at(d, retry_policy, counted, now).attempts as nat,
                ),
            ),
        ),
        retry_policy.backoff.base_secs >= 0 && retry_policy.backoff.growth_factor >= 1
            && cooldown::power(
            retry_policy.backoff.growth_factor as int,
            spec_error_at(d, retry_policy, counted, now).attempts as nat + 1,
        ) <= i64::MAX && retry_policy.backoff.base_secs * cooldown::power(
            retry_policy.backoff.growth_factor as int,
            spec_error_at(d, retry_policy, counted, now).attempts as nat + 1,
        ) <= retry_policy.backoff.max_secs ==> spec_error_at(
            d,
            retry_policy,
            counted,
            now,
        ).cooldown_ends_at == time::clamp_instant(
            now + time::nanos_of(
                retry_policy.backoff.base_secs * cooldown::power(
                    retry_policy.backoff.growth_factor as int,
                    spec_error_at(d, retry_policy, counted, now).attempts as nat,
                ),
            ),
        ),
{
    let a = spec_error_at(d, retry_policy, counted, now).attempts as nat;
    let c = cooldown::spec_calc(retry_policy.backoff, a);
    assert(i64::MIN <= c <= i64::MAX);
    if retry_policy.backoff.base_secs >= 0 && retry_policy.backoff.growth_factor >= 1
        && cooldown::power(retry_policy.backoff.growth_factor as int, a + 1) <= i64::MAX
        && retry_policy.backoff.base_secs * cooldown::power(
        retry_policy.backoff.growth_factor as int,
        a + 1,
    ) <= retry_policy.backoff.max_secs {
        cooldown::lemma_calc_below_cap_is_exponential(retry_policy.backoff, a);
    }
}

} // verus!
