use miru_agent::data_uploads::scan::scanner::{
    check_rule_ids, is_inactive, scan_step, tick_plan, ScanErr, ScanStep, TickAction,
};
use miru_agent::data_uploads::scan::state::{Candidate, Config, Observation, RuleState, StableFile};
use miru_agent::filesys::File;
use miru_agent::models::{
    Deployment, DplActivity, DplErrStatus, DplTarget, FileRule, FileRuleSource, FileRuleUpload,
};
use miru_agent::time::Timestamp;

/// SHA-256 of `b"aaaa"`.
const HASH_AAAA: &str = "sha256:61be55a8e2f6b4e172338bddf184d6dbee29c98853e0a0485ecee7f27b9af0b4";

fn deployment(id: &str) -> Deployment {
    Deployment {
        id: id.to_string(),
        target_status: DplTarget::Staged,
        activity_status: DplActivity::Drifted,
        error_status: DplErrStatus::NoError,
        attempts: 0,
        cooldown_ends_at: 0,
        config_instance_ids: vec![],
    }
}

fn file_rule(rule_id: &str, glob: &str, window: i64) -> FileRule {
    FileRule {
        id: rule_id.to_string(),
        upload: Some(FileRuleUpload {
            upload_collection_id: format!("{rule_id}-coll"),
        }),
        source: FileRuleSource {
            glob: glob.to_string(),
            stability_window_secs: window,
        },
        retention: None,
    }
}

fn config(dpl_id: &str, rule_id: &str, glob: &str, window: i64) -> Config {
    Config {
        deployment: deployment(dpl_id),
        rule: file_rule(rule_id, glob, window),
    }
}

fn ts(secs: i64) -> Timestamp {
    Timestamp { secs, nanos: 0 }
}

fn stable_file(file: File, first_observed_at: i128) -> StableFile {
    StableFile {
        file,
        size: 4,
        digest: HASH_AAAA.to_string(),
        mtime: ts(0),
        mtime_aliases: vec![],
        first_observed_at,
        last_observed_at: first_observed_at,
        deployment_id: "d".to_string(),
        file_rule_id: "r1".to_string(),
    }
}

/// A size-4 observation at 1000 with the epoch mtime for `file`.
fn observation(file: File) -> Observation {
    Observation {
        file,
        timestamp: 1000,
        size: 4,
        mtime: ts(0),
        deployment_id: "d".to_string(),
        file_rule_id: "r1".to_string(),
    }
}

// =============================== accessors ================================= //

#[test]
fn new_starts_empty() {
    let state = RuleState::new(config("d", "r1", "/none/*.mcap", 0));
    assert_eq!(state.rule().id, "r1");
    assert_eq!(state.ledger_count(), 0);
    assert!(!state.has_candidates());
    assert!(!state.is_preexisting(&observation(File::new("/none/p.mcap"))));
}

#[test]
fn rule() {
    let mut cfg = config("d", "r1", "/logs/*.mcap", 60);
    cfg.rule.id = "rule-42".to_string();
    let state = RuleState::new(cfg);
    assert_eq!(state.rule().id, "rule-42");
    assert_eq!(state.rule().source.glob, "/logs/*.mcap");
}

#[test]
fn ledger_count() {
    let mut state = RuleState::new(config("d", "r1", "/none/*.mcap", 0));
    assert_eq!(state.ledger_count(), 0);
    let file = File::new("/none/a.mcap");
    state.push_ledger_entry(stable_file(file, 1000));
    assert_eq!(state.ledger_count(), 1);
}

#[test]
fn has_candidates() {
    let mut state = RuleState::new(config("d", "r1", "/none/*.mcap", 0));
    assert!(!state.has_candidates());
    let file = File::new("/none/c.mcap");
    state.insert_candidate(Candidate {
        file: file.clone(),
        first_obs: observation(file),
    });
    assert!(state.has_candidates());
}

#[test]
fn is_candidate() {
    let file = File::new("/none/c.mcap");
    let mut state = RuleState::new(config("d", "r1", "/none/*.mcap", 0));
    assert!(!state.is_candidate(&file));
    state.insert_candidate(Candidate {
        file: file.clone(),
        first_obs: observation(file.clone()),
    });
    assert!(state.is_candidate(&file));
    state.remove_candidate(&file);
    assert!(!state.is_candidate(&file));
}

// ============================= is_preexisting ============================== //

#[test]
fn does_not_exist() {
    let state = RuleState::new(config("d", "r1", "/none/*.mcap", 0));
    let obs = observation(File::new("/none/p.mcap"));
    assert!(!state.is_preexisting(&obs));
}

#[test]
fn metadata_not_equal() {
    let file = File::new("/none/p.mcap");
    let mut state = RuleState::new(config("d", "r1", "/none/*.mcap", 0));
    state.insert_preexisting(observation(file.clone()));

    let mut size_changed = observation(file.clone());
    size_changed.size += 1;
    assert!(!state.is_preexisting(&size_changed));

    let mut mtime_changed = observation(file);
    mtime_changed.mtime = ts(1);
    assert!(!state.is_preexisting(&mtime_changed));
}

#[test]
fn is_preexisting() {
    let file = File::new("/none/p.mcap");
    let mut state = RuleState::new(config("d", "r1", "/none/*.mcap", 0));
    let obs = observation(file);
    state.insert_preexisting(obs.duplicate());
    assert!(state.is_preexisting(&obs));
}

// ============================== prune_ledger =============================== //

fn seed_n(state: &mut RuleState, n: usize) -> Vec<File> {
    let mut files = Vec::with_capacity(n);
    for i in 0..n {
        let file = File::new(&format!("/none/{i}.mcap"));
        state.push_ledger_entry(stable_file(file.clone(), 1000));
        files.push(file);
    }
    files
}

#[test]
fn below_threshold_prunes_nothing() {
    let mut state = RuleState::new(config("d", "r1", "/none/*.mcap", 0));
    seed_n(&mut state, 2);
    state.prune_ledger(&[], 3);
    assert_eq!(state.ledger_count(), 2);
}

#[test]
fn at_threshold_drops_unglobbed_keeps_globbed() {
    let mut state = RuleState::new(config("d", "r1", "/none/*.mcap", 0));
    let seeded = seed_n(&mut state, 4);
    let kept = &seeded[..3];
    // a two-entry history proves the whole history survives, not just the latest
    state.push_ledger_entry(stable_file(kept[0].clone(), 2000));

    state.prune_ledger(kept, 4);
    assert_eq!(state.ledger_count(), 3);
    for file in kept {
        assert!(state.ledger_history_len(file) > 0);
    }
    assert_eq!(state.ledger_history_len(&kept[0]), 2);
    assert_eq!(state.ledger_history_len(&seeded[3]), 0);
}

#[test]
fn empty_ledger_noop() {
    let mut state = RuleState::new(config("d", "r1", "/none/*.mcap", 0));
    state.prune_ledger(&[], 1);
    assert_eq!(state.ledger_count(), 0);
}

// =============================== observation =============================== //

#[test]
fn equal_metadata_equal() {
    let file = File::new("/none/a.mcap");
    let a = observation(file.clone());
    let b = observation(file);
    assert!(a.equal_metadata(&b));
}

#[test]
fn equal_metadata_size_differs() {
    let file = File::new("/none/a.mcap");
    let a = observation(file.clone());
    let mut b = observation(file);
    b.size += 1;
    assert!(!a.equal_metadata(&b));
}

#[test]
fn equal_metadata_mtime_differs() {
    let file = File::new("/none/a.mcap");
    let a = observation(file.clone());
    let mut b = observation(file);
    b.mtime = ts(1);
    assert!(!a.equal_metadata(&b));
}

#[test]
fn equal_metadata_tells_nanoseconds_apart() {
    let file = File::new("/none/a.mcap");
    let a = observation(file.clone());
    let mut b = observation(file);
    b.mtime = Timestamp { secs: 0, nanos: 1 };
    assert!(!a.equal_metadata(&b));
}

#[test]
fn holds_single_observation() {
    let file = File::new("/none/x.mcap");
    let obs = observation(file.clone());
    let cand = Candidate {
        file: file.clone(),
        first_obs: obs.duplicate(),
    };
    assert_eq!(cand.file, file);
    assert_eq!(cand.first_obs.file, obs.file);
    assert!(cand.first_obs.equal_metadata(&obs));
}

// ========================= is_latest_ledger_entry ========================== //

#[test]
fn matches() {
    let file = File::new("/none/l.mcap");
    let mut state = RuleState::new(config("d", "r1", "/none/*.mcap", 0));
    state.push_ledger_entry(stable_file(file.clone(), 900));
    assert!(state.is_latest_ledger_entry(&observation(file)));
}

#[test]
fn metadata_differs() {
    let file = File::new("/none/l.mcap");
    let mut state = RuleState::new(config("d", "r1", "/none/*.mcap", 0));
    state.push_ledger_entry(stable_file(file.clone(), 900));

    let mut size_changed = observation(file.clone());
    size_changed.size += 1;
    assert!(!state.is_latest_ledger_entry(&size_changed));

    let mut mtime_changed = observation(file);
    mtime_changed.mtime = ts(1);
    assert!(!state.is_latest_ledger_entry(&mtime_changed));
}

#[test]
fn absent() {
    let file = File::new("/none/l.mcap");
    let state = RuleState::new(config("d", "r1", "/none/*.mcap", 0));
    assert!(!state.is_latest_ledger_entry(&observation(file)));
}

#[test]
fn only_the_latest_entry_counts() {
    let file = File::new("/none/l.mcap");
    let mut state = RuleState::new(config("d", "r1", "/none/*.mcap", 0));
    state.push_ledger_entry(stable_file(file.clone(), 900));
    let mut newer = stable_file(file.clone(), 1900);
    newer.size = 8;
    state.push_ledger_entry(newer);
    assert!(!state.is_latest_ledger_entry(&observation(file)));
}

// ========================= latest ledger entry alias ======================= //

#[test]
fn appends_alias() {
    let file = File::new("/none/l.mcap");
    let mut state = RuleState::new(config("d", "r1", "/none/*.mcap", 0));
    state.push_ledger_entry(stable_file(file.clone(), 900));

    assert!(state.push_latest_mtime_alias(&file, ts(1234)));
    let mut obs = observation(file);
    obs.mtime = ts(1234);
    assert!(state.is_latest_ledger_entry(&obs));
}

#[test]
fn none_when_absent() {
    let file = File::new("/none/l.mcap");
    let mut state = RuleState::new(config("d", "r1", "/none/*.mcap", 0));
    assert!(!state.push_latest_mtime_alias(&file, ts(1234)));
    assert_eq!(state.ledger_count(), 0);
}

// ============================= push_mtime_alias ============================ //

#[test]
fn dedups_against_primary_mtime() {
    let file = File::new("/none/l.mcap");
    let mut entry = stable_file(file, 900);
    entry.mtime = ts(500);
    entry.push_mtime_alias(ts(500));
    assert!(entry.mtime_aliases.is_empty());
}

#[test]
fn dedups_repeated_alias() {
    let file = File::new("/none/l.mcap");
    let mut entry = stable_file(file, 900);
    entry.push_mtime_alias(ts(1234));
    entry.push_mtime_alias(ts(1234));
    entry.push_mtime_alias(ts(5678));
    entry.push_mtime_alias(ts(1234));
    assert_eq!(entry.mtime_aliases, vec![ts(1234), ts(5678)]);
}

// =============================== stable_file =============================== //

#[test]
fn matches_primary_mtime() {
    let file = File::new("/none/s.mcap");
    let entry = stable_file(file.clone(), 900);
    let observation = observation(file);
    assert!(entry.has_mtime(&observation));
    assert!(entry.equal_metadata(&observation));
}

#[test]
fn matches_aliased_mtime() {
    let file = File::new("/none/s.mcap");
    let aliased = ts(7);
    let mut entry = stable_file(file.clone(), 900);
    entry.mtime_aliases = vec![aliased];
    let mut observation = observation(file);
    observation.mtime = aliased;
    assert!(entry.has_mtime(&observation));
    assert!(entry.equal_metadata(&observation));
}

#[test]
fn size_mismatch() {
    let file = File::new("/none/s.mcap");
    let entry = stable_file(file.clone(), 900);
    let mut observation = observation(file);
    observation.size += 1;
    assert!(!entry.equal_metadata(&observation));
}

#[test]
fn mtime_mismatch() {
    let file = File::new("/none/s.mcap");
    let entry = stable_file(file.clone(), 900);
    let mut observation = observation(file);
    observation.mtime = ts(1);
    assert!(!entry.has_mtime(&observation));
    assert!(!entry.equal_metadata(&observation));
}

// ================================ scanner ================================== //

#[test]
fn duplicate_rule_ids_are_rejected() {
    let rules = vec![
        file_rule("r1", "/a/*", 0),
        file_rule("r2", "/b/*", 0),
        file_rule("r1", "/c/*", 0),
    ];
    assert!(check_rule_ids(&rules[..2]).is_ok());
    match check_rule_ids(&rules) {
        Err(ScanErr::DuplicateFileRuleID(e)) => assert_eq!(e.file_rule_id, "r1"),
        Ok(()) => panic!("expected a duplicate id"),
    }
}

#[test]
fn scanners_without_deployment_or_candidates_are_inactive() {
    assert!(is_inactive(false, false));
    assert!(!is_inactive(true, false));
    assert!(!is_inactive(false, true));
}

#[test]
fn scan_steps_discover_drain_then_prune() {
    assert_eq!(scan_step(true, true), ScanStep::Discover);
    assert_eq!(scan_step(true, false), ScanStep::Discover);
    assert_eq!(scan_step(false, true), ScanStep::Drain);
    assert_eq!(scan_step(false, false), ScanStep::Prune);
}

#[test]
fn a_tick_persists_then_delivers_each_file_to_every_sink() {
    assert_eq!(
        tick_plan(2, 2),
        vec![
            TickAction::Persist,
            TickAction::Deliver { file: 0, sink: 0 },
            TickAction::Deliver { file: 0, sink: 1 },
            TickAction::Deliver { file: 1, sink: 0 },
            TickAction::Deliver { file: 1, sink: 1 },
        ]
    );
    assert_eq!(tick_plan(3, 1).len(), 4);
    assert_eq!(tick_plan(3, 1)[3], TickAction::Deliver { file: 2, sink: 0 });
    // with no sink attached nothing is delivered, but the state is still persisted
    assert_eq!(tick_plan(3, 0), vec![TickAction::Persist]);
    assert_eq!(tick_plan(0, 3), vec![TickAction::Persist]);
}
