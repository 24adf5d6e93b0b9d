use miru_agent::authn::errors::MockError;
use miru_agent::cooldown::Backoff;
use miru_agent::deploy::fsm::{
    deploy, deploy_at, error, has_recovered, next_action, next_action_at, remove, remove_at,
    NextAction, RetryPolicy,
};
use miru_agent::models::{Deployment, DplActivity, DplErrStatus, DplTarget};

const ACTIVITIES: [DplActivity; 5] = [
    DplActivity::Drifted,
    DplActivity::Staged,
    DplActivity::Queued,
    DplActivity::Deployed,
    DplActivity::Archived,
];
const TARGETS: [DplTarget; 3] = [DplTarget::Staged, DplTarget::Deployed, DplTarget::Archived];
const ERR_STATUSES: [DplErrStatus; 3] = [
    DplErrStatus::NoError,
    DplErrStatus::Retrying,
    DplErrStatus::Failed,
];

const NANOS_PER_SEC: i128 = 1_000_000_000;

fn now() -> i128 {
    let now = chrono::Utc::now();
    i128::from(now.timestamp()) * NANOS_PER_SEC + i128::from(now.timestamp_subsec_nanos())
}

fn deployment(
    activity_status: DplActivity,
    target_status: DplTarget,
    error_status: DplErrStatus,
) -> Deployment {
    Deployment {
        id: "dpl_1".to_string(),
        target_status,
        activity_status,
        error_status,
        attempts: 0,
        cooldown_ends_at: 0,
        config_instance_ids: vec!["cfg_1".to_string()],
    }
}

// =============================== NEXT ACTION ================================= //

struct Expected {
    staged: NextAction,
    deployed: NextAction,
    archived: NextAction,
}

fn validate_next_action(expected: NextAction, actual: NextAction) {
    match (expected, actual) {
        (NextAction::Wait(e), NextAction::Wait(a)) => {
            assert!((e - a).abs() <= NANOS_PER_SEC, "expected wait {e}ns, got {a}ns");
        }
        _ => assert_eq!(expected, actual),
    }
}

fn validate_next_actions(mut d: Deployment, expected: &Expected) {
    d.target_status = DplTarget::Staged;
    validate_next_action(expected.staged, next_action(&d));
    d.target_status = DplTarget::Deployed;
    validate_next_action(expected.deployed, next_action(&d));
    d.target_status = DplTarget::Archived;
    validate_next_action(expected.archived, next_action(&d));
}

fn validate_for_activity(activity: DplActivity, actionable: Expected) {
    let mut d = deployment(activity, DplTarget::Staged, DplErrStatus::NoError);

    // actionable error statuses without cooldown
    for error_status in [DplErrStatus::NoError, DplErrStatus::Retrying] {
        d.error_status = error_status;
        validate_next_actions(d.clone(), &actionable);
    }

    // actionable error statuses with cooldown: always wait
    let cooldown = 60 * 60 * NANOS_PER_SEC;
    let wait_all = Expected {
        staged: NextAction::Wait(cooldown),
        deployed: NextAction::Wait(cooldown),
        archived: NextAction::Wait(cooldown),
    };
    for error_status in [DplErrStatus::NoError, DplErrStatus::Retrying] {
        d.error_status = error_status;
        d.cooldown_ends_at = now() + cooldown;
        validate_next_actions(d.clone(), &wait_all);
    }

    // failed error status: never any action
    let none_all = Expected {
        staged: NextAction::NoAction,
        deployed: NextAction::NoAction,
        archived: NextAction::NoAction,
    };
    d.error_status = DplErrStatus::Failed;
    validate_next_actions(d.clone(), &none_all);
}

#[test]
fn drifted_activity() {
    validate_for_activity(
        DplActivity::Drifted,
        Expected {
            staged: NextAction::NoAction,
            deployed: NextAction::NoAction,
            archived: NextAction::Archive,
        },
    );
}

#[test]
fn staged_activity() {
    validate_for_activity(
        DplActivity::Staged,
        Expected {
            staged: NextAction::NoAction,
            deployed: NextAction::NoAction,
            archived: NextAction::Archive,
        },
    );
}

#[test]
fn queued_activity() {
    validate_for_activity(
        DplActivity::Queued,
        Expected {
            staged: NextAction::Archive,
            deployed: NextAction::Deploy,
            archived: NextAction::Archive,
        },
    );
}

#[test]
fn deployed_activity() {
    validate_for_activity(
        DplActivity::Deployed,
        Expected {
            staged: NextAction::Remove,
            deployed: NextAction::NoAction,
            archived: NextAction::Remove,
        },
    );
}

#[test]
fn archived_activity() {
    validate_for_activity(
        DplActivity::Archived,
        Expected {
            staged: NextAction::NoAction,
            deployed: NextAction::Deploy,
            archived: NextAction::NoAction,
        },
    );
}

#[test]
fn next_action_waits_out_the_exact_cooldown() {
    let mut d = deployment(DplActivity::Queued, DplTarget::Deployed, DplErrStatus::Retrying);
    d.cooldown_ends_at = 1_000;
    assert_eq!(next_action_at(&d, 990), NextAction::Wait(10));
    assert_eq!(next_action_at(&d, 1_000), NextAction::Deploy);
    d.error_status = DplErrStatus::Failed;
    assert_eq!(next_action_at(&d, 990), NextAction::NoAction);
}

// =============================== TRANSITIONS ================================= //

fn with_error_status(error_status: DplErrStatus) -> Vec<Deployment> {
    let mut out = Vec::new();
    for activity in ACTIVITIES {
        for target in TARGETS {
            out.push(deployment(activity, target, error_status));
        }
    }
    out
}

fn all_status_combos() -> Vec<Deployment> {
    let mut out = Vec::new();
    for err in ERR_STATUSES {
        out.extend(with_error_status(err));
    }
    out
}

fn with_attempts(deployments: Vec<Deployment>, attempts: u32) -> Vec<Deployment> {
    deployments
        .into_iter()
        .map(|mut d| {
            d.attempts = attempts;
            d
        })
        .collect()
}

fn with_cooldown(deployments: Vec<Deployment>, secs: i64) -> Vec<Deployment> {
    let until = now() + i128::from(secs) * NANOS_PER_SEC;
    deployments
        .into_iter()
        .map(|mut d| {
            d.cooldown_ends_at = until;
            d
        })
        .collect()
}

fn validate_transition(
    before: Deployment,
    actual: Deployment,
    activity: DplActivity,
    expected_error_status: DplErrStatus,
) {
    let recovered = before.error_status == DplErrStatus::Retrying
        && expected_error_status == DplErrStatus::NoError;
    if recovered {
        assert!(!actual.is_in_cooldown(), "cooldown should be cleared on recovery");
    } else {
        assert_eq!(
            actual.cooldown_ends_at, before.cooldown_ends_at,
            "cooldown should be unchanged when not recovering"
        );
    }
    let expected = Deployment {
        activity_status: activity,
        error_status: expected_error_status,
        attempts: if recovered { 0 } else { before.attempts },
        cooldown_ends_at: actual.cooldown_ends_at,
        ..before.clone()
    };
    assert!(expected == actual, "expected:\n{expected:?}\n actual:\n{actual:?}\n");
}

fn validate_deploy_transition(d: Deployment, expected_error_status: DplErrStatus) {
    let actual = deploy(d.clone());
    validate_transition(d, actual, DplActivity::Deployed, expected_error_status);
}

fn validate_remove_transition(d: Deployment, expected_error_status: DplErrStatus) {
    let actual = remove(d.clone());
    validate_transition(d, actual, DplActivity::Archived, expected_error_status);
}

#[test]
fn deploy_error_status_none() {
    for d in with_error_status(DplErrStatus::NoError) {
        validate_deploy_transition(d, DplErrStatus::NoError);
    }
}

#[test]
fn deploy_error_status_retrying() {
    for d in with_error_status(DplErrStatus::Retrying) {
        match d.target_status {
            DplTarget::Deployed => validate_deploy_transition(d, DplErrStatus::NoError),
            _ => validate_deploy_transition(d, DplErrStatus::Retrying),
        }
    }
}

#[test]
fn deploy_error_status_failed() {
    for d in with_error_status(DplErrStatus::Failed) {
        validate_deploy_transition(d, DplErrStatus::Failed);
    }
}

#[test]
fn remove_error_status_none() {
    for d in with_error_status(DplErrStatus::NoError) {
        validate_remove_transition(d, DplErrStatus::NoError);
    }
}

#[test]
fn remove_error_status_retrying() {
    for d in with_error_status(DplErrStatus::Retrying) {
        match d.target_status {
            DplTarget::Staged | DplTarget::Archived => {
                validate_remove_transition(d, DplErrStatus::NoError)
            }
            DplTarget::Deployed => validate_remove_transition(d, DplErrStatus::Retrying),
        }
    }
}

#[test]
fn remove_error_status_failed() {
    for d in with_error_status(DplErrStatus::Failed) {
        validate_remove_transition(d, DplErrStatus::Failed);
    }
}

#[test]
fn deploy_preserves_attempts_when_not_recovering() {
    for d in with_attempts(with_error_status(DplErrStatus::NoError), 5) {
        validate_deploy_transition(d, DplErrStatus::NoError);
    }
    for d in with_attempts(with_error_status(DplErrStatus::Failed), 5) {
        validate_deploy_transition(d, DplErrStatus::Failed);
    }
}

#[test]
fn deploy_resets_attempts_on_recovery() {
    for d in with_attempts(with_error_status(DplErrStatus::Retrying), 5) {
        match d.target_status {
            DplTarget::Deployed => validate_deploy_transition(d, DplErrStatus::NoError),
            _ => validate_deploy_transition(d, DplErrStatus::Retrying),
        }
    }
}

#[test]
fn deploy_clears_cooldown_on_recovery() {
    for d in with_cooldown(with_attempts(with_error_status(DplErrStatus::Retrying), 3), 5 * 60) {
        match d.target_status {
            DplTarget::Deployed => validate_deploy_transition(d, DplErrStatus::NoError),
            _ => validate_deploy_transition(d, DplErrStatus::Retrying),
        }
    }
}

#[test]
fn remove_preserves_attempts_when_not_recovering() {
    for d in with_attempts(with_error_status(DplErrStatus::NoError), 5) {
        validate_remove_transition(d, DplErrStatus::NoError);
    }
    for d in with_attempts(with_error_status(DplErrStatus::Failed), 5) {
        validate_remove_transition(d, DplErrStatus::Failed);
    }
}

#[test]
fn remove_resets_attempts_on_recovery() {
    for d in with_attempts(with_error_status(DplErrStatus::Retrying), 5) {
        match d.target_status {
            DplTarget::Staged | DplTarget::Archived => {
                validate_remove_transition(d, DplErrStatus::NoError)
            }
            DplTarget::Deployed => validate_remove_transition(d, DplErrStatus::Retrying),
        }
    }
}

#[test]
fn remove_clears_cooldown_on_recovery() {
    for d in with_cooldown(with_attempts(with_error_status(DplErrStatus::Retrying), 3), 5 * 60) {
        match d.target_status {
            DplTarget::Staged | DplTarget::Archived => {
                validate_remove_transition(d, DplErrStatus::NoError)
            }
            DplTarget::Deployed => validate_remove_transition(d, DplErrStatus::Retrying),
        }
    }
}

#[test]
fn deploy_at_and_remove_at_only_touch_status_fields() {
    let mut d = deployment(DplActivity::Queued, DplTarget::Deployed, DplErrStatus::Retrying);
    d.attempts = 4;
    d.cooldown_ends_at = 5_000;
    let deployed = deploy_at(d.clone(), 1_000);
    assert_eq!(deployed.activity_status, DplActivity::Deployed);
    assert_eq!(deployed.error_status, DplErrStatus::NoError);
    assert_eq!(deployed.attempts, 0);
    assert_eq!(deployed.cooldown_ends_at, 1_000);
    assert_eq!(deployed.id, d.id);
    assert_eq!(deployed.config_instance_ids, d.config_instance_ids);

    let removed = remove_at(d.clone(), 1_000);
    assert_eq!(removed.activity_status, DplActivity::Archived);
    assert_eq!(removed.error_status, DplErrStatus::Retrying);
    assert_eq!(removed.attempts, 4);
    assert_eq!(removed.cooldown_ends_at, 5_000);
}

// ============================ ERROR TRANSITIONS ============================== //

fn validate_error_transition(
    d: Deployment,
    retry_policy: &RetryPolicy,
    e: &MockError,
    bump_attempts: bool,
) {
    let attempts = if bump_attempts && !e.is_network_conn_err {
        d.attempts + 1
    } else {
        d.attempts
    };
    let expected_err_status =
        if attempts >= retry_policy.max_attempts || d.error_status == DplErrStatus::Failed {
            DplErrStatus::Failed
        } else {
            DplErrStatus::Retrying
        };
    let actual = error(d.clone(), retry_policy, e, bump_attempts);

    let now = now();
    let cd = miru_agent::cooldown::calc(&retry_policy.backoff, attempts);
    let expected_cooldown_ends_at = now + i128::from(cd) * NANOS_PER_SEC;
    assert!(actual.cooldown_ends_at <= expected_cooldown_ends_at);
    assert!(actual.cooldown_ends_at >= expected_cooldown_ends_at - NANOS_PER_SEC);

    let expected = Deployment {
        error_status: expected_err_status,
        attempts,
        cooldown_ends_at: actual.cooldown_ends_at,
        ..d.clone()
    };
    assert!(expected == actual, "expected:\n{expected:?}\n actual:\n{actual:?}\n");
}

#[test]
fn error_transition() {
    let retry_policy = RetryPolicy {
        max_attempts: 5,
        backoff: Backoff {
            base_secs: 1,
            growth_factor: 2,
            max_secs: 60,
        },
    };

    for network_err in [false, true] {
        let e = MockError {
            is_network_conn_err: network_err,
        };
        for bump_attempts in [false, true] {
            for attempts in [
                0,
                retry_policy.max_attempts - 2,
                retry_policy.max_attempts - 1,
                retry_policy.max_attempts + 1,
            ] {
                for d in with_attempts(all_status_combos(), attempts) {
                    validate_error_transition(d, &retry_policy, &e, bump_attempts);
                }
            }
        }
    }
}

// ============================== HAS_RECOVERED ================================ //

#[test]
fn non_retrying_always_false() {
    for err in [DplErrStatus::NoError, DplErrStatus::Failed] {
        for target in TARGETS {
            for activity in ACTIVITIES {
                let d = deployment(DplActivity::Drifted, target, err);
                assert!(
                    !has_recovered(&d, activity),
                    "expected false for error={err:?}, target={target:?}, activity={activity:?}",
                );
            }
        }
    }
}

#[test]
fn retrying_recovery_table() {
    let table = [
        (DplTarget::Staged, DplActivity::Drifted, true),
        (DplTarget::Staged, DplActivity::Staged, true),
        (DplTarget::Staged, DplActivity::Queued, true),
        (DplTarget::Staged, DplActivity::Deployed, false),
        (DplTarget::Staged, DplActivity::Archived, true),
        (DplTarget::Deployed, DplActivity::Drifted, false),
        (DplTarget::Deployed, DplActivity::Staged, false),
        (DplTarget::Deployed, DplActivity::Queued, false),
        (DplTarget::Deployed, DplActivity::Deployed, true),
        (DplTarget::Deployed, DplActivity::Archived, false),
        (DplTarget::Archived, DplActivity::Drifted, false),
        (DplTarget::Archived, DplActivity::Staged, false),
        (DplTarget::Archived, DplActivity::Queued, false),
        (DplTarget::Archived, DplActivity::Deployed, false),
        (DplTarget::Archived, DplActivity::Archived, true),
    ];
    for (target, new_activity, recovered) in table {
        let d = deployment(DplActivity::Drifted, target, DplErrStatus::Retrying);
        assert_eq!(
            has_recovered(&d, new_activity),
            recovered,
            "target={target:?}, new_activity={new_activity:?}"
        );
    }
}

#[test]
fn default_retry_policy() {
    let p = RetryPolicy::default();
    assert_eq!(p.max_attempts, 2147483647);
    assert_eq!(p.backoff.base_secs, 15);
    assert_eq!(p.backoff.growth_factor, 2);
    assert_eq!(p.backoff.max_secs, 86400);
}
