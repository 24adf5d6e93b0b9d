use miru_agent::cooldown::Backoff;
use miru_agent::data_uploads::queue::{Queue, QueueEntry, QueueSnapshot};
use miru_agent::data_uploads::upload::uploader::{
    delete_job_for, next_step, on_failure, FailureAction, RunStep, UploaderOptions,
};
use miru_agent::data_uploads::upload::Job;
use miru_agent::filesys::File;
use miru_agent::models::FileRuleRetention;
use miru_agent::time::{Timestamp, MIN_UTC_NANOS, NANOS_PER_SEC};

/// Two instants, in nanoseconds since the epoch, a little after the files were observed.
const T0: i128 = 2_000_000_000_123;
const T1: i128 = 5_000_000_000_456;

fn new_id() -> u128 {
    uuid::Uuid::new_v4().as_u128()
}

fn job(name: &str) -> Job {
    Job {
        file: File::new(&format!("/data/{name}")),
        size: 42,
        digest: format!("sha256:{name}"),
        mtime: Timestamp { secs: 900, nanos: 0 },
        first_observed_at: 1000,
        last_observed_at: 1000,
        file_rule_id: "file_rule_1".to_string(),
        deployment_id: "dpl_1".to_string(),
        retention: None,
    }
}

fn files(queue: &Queue<Job>) -> Vec<String> {
    queue
        .snapshot()
        .entries
        .into_iter()
        .map(|e| e.job.file.path)
        .collect()
}

fn options() -> UploaderOptions {
    UploaderOptions {
        queue_capacity: 8,
        attempts: 3,
        backoff: Backoff {
            base_secs: 10,
            growth_factor: 2,
            max_secs: 60,
        },
        attempt_timeout_floor_secs: 120,
        attempt_timeout_bytes_per_sec: 64 * 1024,
        max_job_age_secs: 7 * 24 * 60 * 60,
    }
}

#[test]
fn accessors_expose_the_queued_entries_in_order() {
    let mut queue = Queue::<Job>::new(4);
    queue.enqueue(job("a.log"), new_id()).unwrap();
    queue.enqueue(job("b.log"), new_id()).unwrap();

    assert_eq!(files(&queue), vec!["/data/a.log", "/data/b.log"]);
    let entries = queue.snapshot().entries;
    assert_ne!(entries[0].id, entries[1].id);
    assert_eq!(entries[0].attempts, 0);
    assert!(entries[0].next_attempt_at.is_none());
}

#[test]
fn enqueue_at_capacity_is_rejected_and_changes_nothing() {
    let mut queue = Queue::<Job>::new(1);
    queue.enqueue(job("a.log"), new_id()).unwrap();
    let err = queue.enqueue(job("b.log"), new_id()).unwrap_err();
    assert_eq!(err.label, "upload");
    assert_eq!(err.capacity, 1);
    assert_eq!(err.name, "/data/b.log");
    assert_eq!(files(&queue), vec!["/data/a.log"]);
}

#[test]
fn snapshot_backlog_is_loaded_in_full_beyond_capacity() {
    let mut snapshot = QueueSnapshot::empty();
    for (i, name) in ["a.log", "b.log", "c.log"].iter().enumerate() {
        snapshot.entries.push(QueueEntry {
            id: i as u128,
            job: job(name),
            attempts: 0,
            next_attempt_at: None,
        });
    }
    let mut queue = Queue::from_snapshot(2, snapshot);
    assert_eq!(queue.len(), 3);
    assert!(queue.enqueue(job("d.log"), new_id()).is_err());
    queue.remove(0);
    queue.remove(1);
    assert!(queue.enqueue(job("d.log"), new_id()).is_ok());
    assert_eq!(files(&queue), vec!["/data/c.log", "/data/d.log"]);
}

#[test]
fn remove_returns_the_entry_and_ignores_unknown_ids() {
    let mut queue = Queue::<Job>::new(4);
    queue.enqueue(job("a.log"), new_id()).unwrap();
    let id = queue.next_ready(0).unwrap().id;
    assert!(queue.remove(id.wrapping_add(1)).is_none());
    assert_eq!(queue.len(), 1);
    let removed = queue.remove(id).expect("the entry is queued");
    assert_eq!(removed.job.file.path, "/data/a.log");
    assert!(queue.is_empty());
}

#[test]
fn requeue_rotates_without_changing_length() {
    let mut queue = Queue::<Job>::new(2);
    queue.enqueue(job("a.log"), new_id()).unwrap();
    queue.enqueue(job("b.log"), new_id()).unwrap();
    let mut first = queue.next_ready(0).unwrap();
    first.attempts = 2;
    first.next_attempt_at = Some(500);
    queue.requeue(first);
    assert_eq!(queue.len(), 2);
    assert_eq!(files(&queue), vec!["/data/b.log", "/data/a.log"]);
    // the entry waiting out its backoff is skipped until its deadline
    assert_eq!(queue.count_ready(499), 1);
    assert_eq!(queue.next_ready(499).unwrap().job.file.path, "/data/b.log");
    assert_eq!(queue.count_ready(500), 2);
}

#[test]
fn deadlines_are_pulled_back_to_the_horizon() {
    let mut queue = Queue::<Job>::new(3);
    for name in ["a.log", "b.log", "c.log"] {
        queue.enqueue(job(name), new_id()).unwrap();
    }
    let mut a = queue.next_ready(0).unwrap();
    a.next_attempt_at = Some(10_000);
    queue.requeue(a);
    let mut b = queue.next_ready(0).unwrap();
    b.next_attempt_at = Some(50);
    queue.requeue(b);
    // c has no deadline, a is beyond the horizon, b within it
    queue.reset_invalid_deadlines(100);
    let deadlines: Vec<Option<i128>> = queue
        .snapshot()
        .entries
        .into_iter()
        .map(|e| e.next_attempt_at)
        .collect();
    assert_eq!(deadlines, vec![None, Some(100), Some(50)]);
    assert_eq!(queue.earliest_next_attempt(), Some(MIN_UTC_NANOS));
}

#[test]
fn earliest_next_attempt_is_the_least_deadline() {
    let mut queue = Queue::<Job>::new(2);
    assert_eq!(queue.earliest_next_attempt(), None);
    queue.enqueue(job("a.log"), new_id()).unwrap();
    queue.enqueue(job("b.log"), new_id()).unwrap();
    for at in [300, 200] {
        let mut e = queue.next_ready(0).unwrap();
        e.next_attempt_at = Some(at);
        queue.requeue(e);
    }
    assert_eq!(queue.earliest_next_attempt(), Some(200));
}

#[test]
fn attempt_deadline_scales_with_size_and_saturates() {
    let o = UploaderOptions::default();
    assert_eq!(o.attempt_deadline(0), 120);
    assert_eq!(o.attempt_deadline(1), 121);
    assert_eq!(o.attempt_deadline(64 * 1024), 121);
    assert_eq!(o.attempt_deadline(64 * 1024 + 1), 122);
    let zero_rate = UploaderOptions {
        attempt_timeout_bytes_per_sec: 0,
        ..o
    };
    assert_eq!(zero_rate.attempt_deadline(10), 130);
    assert_eq!(zero_rate.attempt_deadline(u64::MAX), u64::MAX);
}

#[test]
fn default_options() {
    let o = UploaderOptions::default();
    assert_eq!(o.queue_capacity, 1024);
    assert_eq!(o.attempts, 30);
    assert_eq!(o.backoff.base_secs, 10);
    assert_eq!(o.backoff.growth_factor, 2);
    assert_eq!(o.backoff.max_secs, 3600);
    assert_eq!(o.max_job_age_secs, 604_800);
}

#[test]
fn next_step_attempts_waits_or_idles() {
    let o = options();
    let mut queue = Queue::<Job>::new(4);
    assert!(matches!(next_step(&mut queue, &o, 1000), RunStep::AwaitCommand));

    queue.enqueue(job("a.log"), new_id()).unwrap();
    let entry = match next_step(&mut queue, &o, 1000) {
        RunStep::Attempt(e) => e,
        other => panic!("expected an attempt, got {other:?}"),
    };
    assert_eq!(entry.job.file.path, "/data/a.log");
    assert_eq!(queue.len(), 1);

    // a deadline far beyond the longest backoff is pulled back, so the wait is bounded
    let mut e = entry;
    e.next_attempt_at = Some(1000 + 3600 * NANOS_PER_SEC);
    queue.requeue(e);
    match next_step(&mut queue, &o, 1000) {
        RunStep::Wait(w) => assert_eq!(w, 60_000_000_000),
        other => panic!("expected a wait, got {other:?}"),
    }
    match next_step(&mut queue, &o, 1000 + 30 * NANOS_PER_SEC + 5) {
        RunStep::Wait(w) => assert_eq!(w, 29_999_999_995),
        other => panic!("expected a wait, got {other:?}"),
    }
}

#[test]
fn counted_failures_back_off_then_drop() {
    let o = options();
    let mut queue = Queue::<Job>::new(4);
    queue.enqueue(job("a.log"), new_id()).unwrap();

    let e = queue.next_ready(T0).unwrap();
    assert_eq!(on_failure(&mut queue, &o, e, false, false, T0), FailureAction::Retrying(10));
    let e = queue.snapshot().entries.pop().unwrap();
    assert_eq!(e.attempts, 1);
    assert_eq!(e.next_attempt_at, Some(T0 + 10 * NANOS_PER_SEC));

    assert_eq!(on_failure(&mut queue, &o, e, false, false, T0 + 10 * NANOS_PER_SEC), FailureAction::Retrying(20));
    let e = queue.snapshot().entries.pop().unwrap();
    assert_eq!(e.attempts, 2);
    assert_eq!(e.next_attempt_at, Some(T0 + 30 * NANOS_PER_SEC));

    assert_eq!(
        on_failure(&mut queue, &o, e, false, false, T0 + 30 * NANOS_PER_SEC),
        FailureAction::DroppedExhausted
    );
    assert!(queue.is_empty());
}

#[test]
fn terminal_failures_drop_at_once() {
    let o = options();
    let mut queue = Queue::<Job>::new(4);
    queue.enqueue(job("a.log"), new_id()).unwrap();
    let e = queue.next_ready(2000).unwrap();
    assert_eq!(on_failure(&mut queue, &o, e, false, true, 2000), FailureAction::DroppedTerminal);
    assert!(queue.is_empty());
}

#[test]
fn network_failures_do_not_count_until_the_job_is_too_old() {
    let o = options();
    let mut queue = Queue::<Job>::new(4);
    queue.enqueue(job("a.log"), new_id()).unwrap();
    let e = queue.next_ready(T0).unwrap();
    assert_eq!(on_failure(&mut queue, &o, e, true, true, T0), FailureAction::Retrying(10));
    let e = queue.snapshot().entries.pop().unwrap();
    assert_eq!(e.attempts, 0);
    assert_eq!(e.next_attempt_at, Some(T0 + 10 * NANOS_PER_SEC));

    let too_late = 1000 + o.max_job_age_secs as i128 * NANOS_PER_SEC;
    assert_eq!(on_failure(&mut queue, &o, e, true, false, too_late), FailureAction::DroppedAged);
    assert!(queue.is_empty());
}

#[test]
fn confirmed_upload_hands_a_retention_job_to_the_deleter() {
    let mut j = job("a.log");
    assert!(delete_job_for(&j, T1).is_none());
    j.retention = Some(FileRuleRetention { ttl_secs: 300, require_upload: true });
    let d = delete_job_for(&j, T1).unwrap();
    assert_eq!(d.file.path, "/data/a.log");
    assert_eq!(d.last_observed_at, T1);
    assert_eq!(d.first_observed_at, 1000);
    assert_eq!(d.ttl_secs, 300);
    assert_eq!(d.due_at(), T1 + 300 * NANOS_PER_SEC);
}

#[test]
fn queue_full_message_names_label_capacity_and_file() {
    let mut queue: Queue<Job> = Queue::new(2);
    queue.enqueue(job("a.log"), new_id()).unwrap();
    queue.enqueue(job("b.log"), new_id()).unwrap();
    let err = queue.enqueue(job("c.log"), new_id()).unwrap_err();
    assert_eq!(
        err.message(),
        "upload queue is full (capacity 2); rejected job for file /data/c.log"
    );
}

#[test]
fn enqueued_entries_carry_the_given_id() {
    let mut queue: Queue<Job> = Queue::new(4);
    queue.enqueue(job("a.log"), 7).unwrap();
    assert!(queue.contains_id(7));
    assert!(!queue.contains_id(8));
    queue.enqueue(job("b.log"), 8).unwrap();
    let ids: Vec<u128> = queue.snapshot().entries.iter().map(|e| e.id).collect();
    assert_eq!(ids, vec![7, 8]);
    assert_eq!(queue.remove(7).unwrap().id, 7);
    assert!(!queue.contains_id(7));
}
