use miru_agent::app::wait_for_activation::{after_poll, should_log, ActivationPoll};

#[test]
fn cycle_zero_is_silent_caller_logs_first_miss() {
    // cycle 0 is logged by the caller before the loop, so should_log(0) is false
    assert!(!should_log(0));
}

#[test]
fn cycle_one_is_silent() {
    assert!(!should_log(1));
}

#[test]
fn powers_of_two_through_1024_log() {
    for n in [2u64, 4, 8, 16, 32, 64, 128, 256, 512, 1024] {
        assert!(should_log(n), "expected log at cycle {n}");
    }
}

#[test]
fn multiples_of_1024_above_cap_log() {
    for n in [2048u64, 3072, 4096, 5120, 102_400, 1_048_576] {
        assert!(should_log(n), "expected heartbeat at cycle {n}");
    }
}

#[test]
fn off_cycle_values_are_silent() {
    for n in [
        3u64, 5, 7, 9, 17, 31, 63, 127, 255, 511, 513, 1023, 1025, 2047, 3071,
    ] {
        assert!(!should_log(n), "expected silent at cycle {n}");
    }
}

#[test]
fn powers_of_two_above_1024_only_log_when_also_multiple_of_1024() {
    assert!(!should_log(2049));
    assert!(!should_log(4097));
}

#[test]
fn largest_cycle_is_a_heartbeat() {
    // u64::MAX is odd, so it is neither a power of two nor a multiple of 1024
    assert!(!should_log(u64::MAX));
    assert!(should_log(u64::MAX - 1023));
}

#[test]
fn polls_stop_once_activated_and_count_up_otherwise() {
    assert_eq!(after_poll(true, 7), ActivationPoll::Activated);
    assert_eq!(
        after_poll(false, 1),
        ActivationPoll::Waiting {
            log: false,
            next_cycle: 2
        }
    );
    assert_eq!(
        after_poll(false, 2),
        ActivationPoll::Waiting {
            log: true,
            next_cycle: 3
        }
    );
    assert_eq!(
        after_poll(false, u64::MAX),
        ActivationPoll::Waiting {
            log: false,
            next_cycle: u64::MAX
        }
    );
}
