use sha2::{Digest, Sha256};
use vanity_id::ident::{generate_key_data, hash_to_extension_id};
use vanity_id::partition::{hybrid_plan, partition_space, IndexRange};
use vanity_id::run::{next_batch_start, ConfigError, FoundReport, RunState, SearchTask, WorkerId};
use vanity_id::search::{search_batch, BatchOutcome};

#[test]
fn partitions_tile_the_space() {
    for n in 1u64..=1024 {
        let ranges = partition_space(n);
        assert_eq!(ranges.len() as u64, n);
        assert_eq!(ranges[0].start, 0);
        assert_eq!(ranges[ranges.len() - 1].last, u64::MAX);
        for j in 0..ranges.len() {
            assert!(ranges[j].start <= ranges[j].last);
            if j + 1 < ranges.len() {
                assert_eq!(ranges[j].last + 1, ranges[j + 1].start);
            }
        }
    }
}

#[test]
fn hybrid_plan_reserves_first_half_for_accelerator() {
    for n in [1u64, 2, 3, 7, 64] {
        let (accelerator, cpu) = hybrid_plan(n);
        assert_eq!(accelerator.start, 0);
        assert_eq!(accelerator.last, u64::MAX / 2);
        assert_eq!(cpu.len() as u64, n);
        assert_eq!(cpu[0].start, u64::MAX / 2 + 1);
        assert_eq!(cpu[cpu.len() - 1].last, u64::MAX);
        for j in 0..cpu.len() {
            assert!(cpu[j].start <= cpu[j].last);
            if j + 1 < cpu.len() {
                assert_eq!(cpu[j].last + 1, cpu[j + 1].start);
            }
        }
    }
}

#[test]
fn valid_task_is_accepted() {
    let task = SearchTask::new("abc".to_string(), 4, 1_000_000, true).expect("valid");
    assert_eq!(task.prefix, "abc");
    assert_eq!(task.cpu_workers, 4);
    assert_eq!(task.batch_size, 1_000_000);
    assert!(task.use_accelerator);
}

#[test]
fn zero_workers_rejected() {
    assert_eq!(
        SearchTask::new("abc".to_string(), 0, 1_000_000, false).unwrap_err(),
        ConfigError::WorkerCountZero
    );
}

#[test]
fn zero_batch_size_rejected() {
    assert_eq!(
        SearchTask::new("abc".to_string(), 1, 0, true).unwrap_err(),
        ConfigError::BatchSizeZero
    );
}

#[test]
fn all_z_prefix_rejected_at_validation() {
    // 32 letters z: valid length, but outside the alphabet, so the run
    // never starts.
    let p = "z".repeat(32);
    assert_eq!(
        SearchTask::new(p, 1, 1_000_000, false).unwrap_err(),
        ConfigError::PrefixOutsideAlphabet
    );
}

#[test]
fn overlong_alphabet_prefix_is_still_valid() {
    // 40 letters a: inside the alphabet, accepted, though it can never
    // match.
    let p = "a".repeat(40);
    assert!(SearchTask::new(p, 1, 1, false).is_ok());
}

#[test]
fn single_worker_finds_reachable_prefix() {
    match search_batch("a", 0, 100_000) {
        BatchOutcome::Match { index, key_data } => {
            assert!(index < 100_000);
            assert_eq!(key_data, generate_key_data(index));
            let digest: Vec<u8> = Sha256::digest(&key_data).to_vec();
            assert!(hash_to_extension_id(&digest).starts_with('a'));
            for j in 0..index {
                let d: Vec<u8> = Sha256::digest(generate_key_data(j)).to_vec();
                assert!(!hash_to_extension_id(&d).starts_with('a'));
            }
        }
        _ => panic!("a one-letter prefix must be reachable within 100000 indices"),
    }
}

#[test]
fn empty_prefix_accepts_index_zero() {
    let key = generate_key_data(0);
    let id = hash_to_extension_id(&Sha256::digest(&key).to_vec());
    match search_batch("", 0, 10) {
        BatchOutcome::Match { index, key_data } => {
            assert_eq!(index, 0);
            assert_eq!(key_data, key);
            let reported = hash_to_extension_id(&Sha256::digest(&key_data).to_vec());
            assert_eq!(reported, id);
        }
        _ => panic!("the empty prefix matches the very first candidate"),
    }
}

#[test]
fn only_first_reporter_wins_the_slot() {
    let mut state = RunState::new(3);
    assert!(!state.found);
    assert!(state.result.is_none());
    let first = FoundReport {
        extension_id: "aaaa".to_string(),
        key_data: vec![1; 32],
        attempts: 10,
        worker: WorkerId::Cpu(2),
    };
    let second = FoundReport {
        extension_id: "bbbb".to_string(),
        key_data: vec![2; 32],
        attempts: 99,
        worker: WorkerId::Accelerator,
    };
    assert!(state.record_match(first));
    assert!(state.found);
    assert!(!state.record_match(second));
    assert!(!state.record_match(FoundReport {
        extension_id: "cccc".to_string(),
        key_data: vec![3; 32],
        attempts: 7,
        worker: WorkerId::Cpu(0),
    }));
    let winner = state.result.expect("exactly one result recorded");
    assert_eq!(winner.extension_id, "aaaa");
    assert_eq!(winner.attempts, 10);
    assert_eq!(winner.worker, WorkerId::Cpu(2));
}

#[test]
fn attempt_counters_sum_and_saturate() {
    let mut state = RunState::new(3);
    state.set_attempts(0, 5);
    state.set_attempts(1, 7);
    state.set_attempts(2, 11);
    assert_eq!(state.total_attempts(), 23);
    state.set_attempts(1, u64::MAX);
    assert_eq!(state.total_attempts(), u64::MAX);
}

#[test]
fn batch_starts_walk_the_range_and_stop() {
    let range = IndexRange { start: 100, last: 129 };
    assert_eq!(next_batch_start(range, 0, 10), Some(100));
    assert_eq!(next_batch_start(range, 1, 10), Some(110));
    assert_eq!(next_batch_start(range, 2, 10), Some(120));
    assert_eq!(next_batch_start(range, 3, 10), None);
    let whole = IndexRange { start: 0, last: u64::MAX };
    assert_eq!(next_batch_start(whole, 0, 1_000_000), Some(0));
    assert_eq!(next_batch_start(whole, 7, 1_000_000), Some(7_000_000));
    assert_eq!(next_batch_start(whole, u64::MAX, 2), None);
}
