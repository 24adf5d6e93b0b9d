use miru_agent::app::run::{idle_check, IdleCheck};
use miru_agent::app::options::AppOptions;
use miru_agent::app::upgrade::{needs_upgrade, next_retry};
use miru_agent::data_uploads::retention::sink::retention_job_for;
use miru_agent::data_uploads::scan::state::StableFile;
use miru_agent::deploy::apply::{after_deploy_at, after_remove_at, idle_outcome_at, DeployOpts};
use miru_agent::deploy::fsm::RetryPolicy;
use miru_agent::deploy::{errors::GenericErr, DeployErr};
use miru_agent::filesys::File;
use miru_agent::models::{
    Deployment, DplActivity, DplErrStatus, DplTarget, FileRule, FileRuleRetention, FileRuleSource,
};
use miru_agent::time::Timestamp;

#[test]
fn upgrade_only_when_the_marker_names_another_version() {
    assert!(!needs_upgrade(Some("v1.2.0"), "v1.2.0"));
    assert!(needs_upgrade(Some("v1.1.0"), "v1.2.0"));
    assert!(needs_upgrade(None, "v1.2.0"));
}

#[test]
fn upgrade_retries_back_off_to_a_minute() {
    assert_eq!(next_retry(0), (1, 2));
    assert_eq!(next_retry(1), (2, 4));
    assert_eq!(next_retry(10), (11, 60));
    assert_eq!(next_retry(u32::MAX), (u32::MAX, 60));
}

#[test]
fn default_app_options() {
    let o = AppOptions::default();
    assert_eq!(o.backend_base_url, "https://api.mirurobotics.com/agent/v1");
    assert!(o.enable_socket_server && o.enable_mqtt_worker && o.enable_poller);
    assert_eq!(o.lifecycle.max_shutdown_delay, 15);
    assert_eq!(o.dpl_retry_policy.backoff.max_secs, 86_400);
}

fn stable_file() -> StableFile {
    StableFile {
        file: File::new("/data/a.log"),
        size: 4,
        digest: "sha256:x".to_string(),
        mtime: Timestamp { secs: 900, nanos: 5 },
        mtime_aliases: vec![],
        first_observed_at: 1000,
        last_observed_at: 1500,
        deployment_id: "dpl_1".to_string(),
        file_rule_id: "r1".to_string(),
    }
}

fn rule(retention: Option<FileRuleRetention>) -> FileRule {
    FileRule {
        id: "r1".to_string(),
        source: FileRuleSource {
            glob: "/data/*.log".to_string(),
            stability_window_secs: 30,
        },
        upload: None,
        retention,
    }
}

#[test]
fn retention_sink_enqueues_only_rules_that_delete_without_upload() {
    assert!(retention_job_for(stable_file(), &rule(None)).is_none());
    let after_upload = FileRuleRetention {
        ttl_secs: 60,
        require_upload: true,
    };
    assert!(retention_job_for(stable_file(), &rule(Some(after_upload))).is_none());
    let plain = FileRuleRetention {
        ttl_secs: 60,
        require_upload: false,
    };
    let job = retention_job_for(stable_file(), &rule(Some(plain))).unwrap();
    assert_eq!(job.file.path, "/data/a.log");
    assert_eq!(job.mtime, Timestamp { secs: 900, nanos: 5 });
    assert_eq!(job.ttl_secs, 60);
    assert_eq!(job.due_at(), 1500 + 60 * 1_000_000_000);
}

fn deployment(activity: DplActivity, target: DplTarget) -> Deployment {
    Deployment {
        id: "dpl_1".to_string(),
        target_status: target,
        activity_status: activity,
        error_status: DplErrStatus::NoError,
        attempts: 0,
        cooldown_ends_at: 0,
        config_instance_ids: vec!["cfg_1".to_string()],
    }
}

fn opts() -> DeployOpts {
    DeployOpts {
        retry_policy: RetryPolicy::default(),
    }
}

#[test]
fn a_successful_deploy_is_recorded() {
    let d = deployment(DplActivity::Queued, DplTarget::Deployed);
    let o = after_deploy_at(d, Ok(()), &opts(), 1000);
    assert!(o.transitioned);
    assert!(o.error.is_none());
    assert!(o.wait.is_none());
    assert_eq!(o.deployment.activity_status, DplActivity::Deployed);
}

#[test]
fn a_failed_deploy_counts_and_cools_down() {
    let d = deployment(DplActivity::Queued, DplTarget::Deployed);
    let err = DeployErr::GenericErr(GenericErr {
        msg: "boom".to_string(),
    });
    let o = after_deploy_at(d, Err(err), &opts(), 1000);
    assert!(o.transitioned);
    assert!(matches!(o.error, Some(DeployErr::GenericErr(_))));
    assert_eq!(o.deployment.activity_status, DplActivity::Queued);
    assert_eq!(o.deployment.error_status, DplErrStatus::Retrying);
    assert_eq!(o.deployment.attempts, 1);
    // 15 s doubled once, counted in nanoseconds from the failure
    assert_eq!(o.deployment.cooldown_ends_at, 1000 + 30_000_000_000);
    assert_eq!(o.wait, Some(30_000_000_000));
}

#[test]
fn a_successful_removal_archives() {
    let d = deployment(DplActivity::Deployed, DplTarget::Archived);
    let o = after_remove_at(d, Ok(()), &opts(), 1000);
    assert_eq!(o.deployment.activity_status, DplActivity::Archived);
    assert!(o.transitioned);
}

#[test]
fn idle_outcomes_report_the_cooldown() {
    let mut d = deployment(DplActivity::Queued, DplTarget::Deployed);
    d.cooldown_ends_at = 1100;
    let o = idle_outcome_at(d, 1000);
    assert_eq!(o.wait, Some(100));
    assert!(!o.transitioned);
    let o = idle_outcome_at(deployment(DplActivity::Deployed, DplTarget::Deployed), 1000);
    assert_eq!(o.wait, None);
}

#[test]
fn idle_timeout_is_strictly_longer_than_the_limit() {
    let last = 1_000u64;
    let at = |secs: u128, nanos: u128| secs * 1_000_000_000 + nanos;
    assert_eq!(idle_check(last, at(1_060, 0), 60), IdleCheck::Active);
    assert_eq!(idle_check(last, at(1_060, 1), 60), IdleCheck::TimedOut);
    assert_eq!(idle_check(last, at(999, 999_999_999), 60), IdleCheck::ClockBehind);
    assert_eq!(idle_check(last, at(1_000, 0), 0), IdleCheck::Active);
    assert_eq!(idle_check(u64::MAX, 0, u64::MAX), IdleCheck::ClockBehind);
}
