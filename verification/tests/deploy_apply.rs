use miru_agent::deploy::apply::{
    after_archive_at, apply_step_at, find_target_deployed, read_deployments_at, with_store_result,
    ApplyStep,
};
use miru_agent::deploy::errors::GenericErr;
use miru_agent::deploy::filesys::{files_to_remove, validate_deploy_target, validate_has_cfg_insts};
use miru_agent::deploy::DeployErr;
use miru_agent::filesys::File;
use miru_agent::models::{ConfigInstance, Deployment, DplActivity, DplErrStatus, DplTarget};

const NOW: i128 = 1_700_000_000_000_000_000;

fn dpl(id: &str, target: DplTarget, activity: DplActivity) -> Deployment {
    Deployment {
        id: id.to_string(),
        target_status: target,
        activity_status: activity,
        error_status: DplErrStatus::NoError,
        attempts: 0,
        cooldown_ends_at: 0,
        config_instance_ids: vec!["cfg_1".to_string()],
    }
}

fn ids(ds: &[Deployment]) -> Vec<&str> {
    ds.iter().map(|d| d.id.as_str()).collect()
}

#[test]
fn deployments_are_sorted_by_next_action() {
    let mut cooling = dpl("cooling", DplTarget::Archived, DplActivity::Staged);
    cooling.cooldown_ends_at = NOW + 30;
    let deployments = vec![
        dpl("target", DplTarget::Deployed, DplActivity::Queued),
        dpl("old", DplTarget::Staged, DplActivity::Deployed),
        dpl("queued", DplTarget::Staged, DplActivity::Queued),
        dpl("idle", DplTarget::Staged, DplActivity::Staged),
        cooling,
        dpl("gone", DplTarget::Archived, DplActivity::Deployed),
    ];
    let cat = read_deployments_at(&deployments, NOW).unwrap();
    assert_eq!(cat.target_deployed.as_ref().unwrap().id, "target");
    assert!(cat.none.is_empty());
    assert_eq!(ids(&cat.wait), vec!["cooling"]);
    assert_eq!(ids(&cat.remove), vec!["old", "gone"]);
    assert_eq!(ids(&cat.archive), vec!["queued"]);

    assert_eq!(
        ids(&cat.without_target_deployed()),
        vec!["cooling", "old", "gone", "queued"]
    );
    assert_eq!(
        ids(&cat.followers(false)),
        vec!["cooling", "old", "gone", "queued"]
    );
    assert_eq!(ids(&cat.followers(true)), vec!["queued", "cooling"]);
}

#[test]
fn two_targets_conflict() {
    let deployments = vec![
        dpl("a", DplTarget::Deployed, DplActivity::Queued),
        dpl("b", DplTarget::Staged, DplActivity::Staged),
        dpl("c", DplTarget::Deployed, DplActivity::Deployed),
    ];
    match read_deployments_at(&deployments, NOW) {
        Err(DeployErr::ConflictingDeployments(e)) => assert_eq!(e.ids, vec!["a", "c"]),
        Err(other) => panic!("expected a conflict, got {other:?}"),
        Ok(_) => panic!("expected a conflict"),
    }
    match find_target_deployed(&deployments) {
        Err(DeployErr::ConflictingDeployments(e)) => assert_eq!(e.ids, vec!["a", "c"]),
        other => panic!("expected a conflict, got {other:?}"),
    }
}

#[test]
fn a_failed_deployment_is_not_a_target() {
    let mut failed = dpl("failed", DplTarget::Deployed, DplActivity::Queued);
    failed.error_status = DplErrStatus::Failed;
    let deployments = vec![failed, dpl("idle", DplTarget::Staged, DplActivity::Staged)];
    assert!(find_target_deployed(&deployments).unwrap().is_none());
    let cat = read_deployments_at(&deployments, NOW).unwrap();
    assert!(cat.target_deployed.is_none());
    assert!(cat.wait.is_empty() && cat.remove.is_empty() && cat.archive.is_empty());
}

#[test]
fn an_empty_store_has_nothing_to_do() {
    let cat = read_deployments_at(&[], NOW).unwrap();
    assert!(cat.target_deployed.is_none());
    assert!(cat.without_target_deployed().is_empty());
}

#[test]
fn validation_of_deploy_targets() {
    let ok = dpl("d", DplTarget::Deployed, DplActivity::Queued);
    assert!(validate_deploy_target(&ok).is_ok());
    assert!(validate_has_cfg_insts(&ok).is_ok());

    let staged = dpl("s", DplTarget::Staged, DplActivity::Queued);
    match validate_deploy_target(&staged) {
        Err(DeployErr::InvalidDeploymentTarget(e)) => {
            assert_eq!(e.deployment_id, "s");
            assert_eq!(e.target_status, DplTarget::Staged);
        }
        other => panic!("expected an invalid target, got {other:?}"),
    }

    let mut empty = dpl("e", DplTarget::Deployed, DplActivity::Queued);
    empty.config_instance_ids.clear();
    match validate_has_cfg_insts(&empty) {
        Err(DeployErr::EmptyConfigInstances(e)) => assert_eq!(e.deployment_id, "e"),
        other => panic!("expected empty config instances, got {other:?}"),
    }
}

#[test]
fn removal_skips_kept_files() {
    let cfgs = vec![
        ConfigInstance {
            id: "c1".to_string(),
            filepath: "/etc/a.json".to_string(),
        },
        ConfigInstance {
            id: "c2".to_string(),
            filepath: "/etc/b.json".to_string(),
        },
        ConfigInstance {
            id: "c3".to_string(),
            filepath: "/etc/c.json".to_string(),
        },
    ];
    let keeps = vec![File::new("/etc/b.json")];
    let removed: Vec<String> = files_to_remove(&cfgs, &keeps)
        .into_iter()
        .map(|f| f.path)
        .collect();
    assert_eq!(removed, vec!["/etc/a.json", "/etc/c.json"]);
    assert_eq!(files_to_remove(&cfgs, &[]).len(), 3);
}

#[test]
fn archiving_is_done_at_once() {
    let d = dpl("q", DplTarget::Staged, DplActivity::Queued);
    match apply_step_at(d, NOW) {
        ApplyStep::Done(o) => {
            assert_eq!(o.deployment.activity_status, DplActivity::Archived);
            assert!(o.transitioned);
            assert!(o.wait.is_none() && o.error.is_none());
        }
        other => panic!("expected an archive outcome, got {other:?}"),
    }
    let mut retrying = dpl("r", DplTarget::Archived, DplActivity::Staged);
    retrying.error_status = DplErrStatus::Retrying;
    retrying.attempts = 3;
    let o = after_archive_at(retrying, NOW);
    assert_eq!(o.deployment.activity_status, DplActivity::Archived);
    assert_eq!(o.deployment.error_status, DplErrStatus::NoError);
    assert_eq!(o.deployment.attempts, 0);
}

#[test]
fn steps_follow_the_next_action() {
    match apply_step_at(dpl("t", DplTarget::Deployed, DplActivity::Queued), NOW) {
        ApplyStep::Deploy(d) => assert_eq!(d.id, "t"),
        other => panic!("expected a deploy, got {other:?}"),
    }
    match apply_step_at(dpl("o", DplTarget::Staged, DplActivity::Deployed), NOW) {
        ApplyStep::Remove(d) => assert_eq!(d.id, "o"),
        other => panic!("expected a removal, got {other:?}"),
    }
    match apply_step_at(dpl("i", DplTarget::Staged, DplActivity::Staged), NOW) {
        ApplyStep::Done(o) => assert!(!o.transitioned && o.wait.is_none()),
        other => panic!("expected no action, got {other:?}"),
    }
    let mut cooling = dpl("c", DplTarget::Deployed, DplActivity::Queued);
    cooling.cooldown_ends_at = NOW + 42;
    match apply_step_at(cooling, NOW) {
        ApplyStep::Done(o) => assert_eq!(o.wait, Some(42)),
        other => panic!("expected a wait, got {other:?}"),
    }
}

#[test]
fn a_failed_store_is_the_outcome_error_only_after_a_success() {
    let o = after_archive_at(dpl("a", DplTarget::Archived, DplActivity::Staged), NOW);
    let stored = with_store_result(
        o,
        Err(DeployErr::GenericErr(GenericErr {
            msg: "disk full".to_string(),
        })),
    );
    assert!(matches!(stored.error, Some(DeployErr::GenericErr(_))));
    let o = after_archive_at(dpl("b", DplTarget::Archived, DplActivity::Staged), NOW);
    assert!(with_store_result(o, Ok(())).error.is_none());
}
