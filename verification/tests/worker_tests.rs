use ssd_benchy::limiter::RateLimiter;
use ssd_benchy::stats::Sample;
use ssd_benchy::worker::is_full_write;
use ssd_benchy::worker::is_retained;
use ssd_benchy::worker::Worker;
use ssd_benchy::worker::BLOCK_SIZE;

fn worker_on(begin: u64, end: u64) -> Worker {
    let limiter = RateLimiter::new(1000, 1, 0, false, 0);
    Worker::new(begin..end, 7, limiter, 0, 10).unwrap()
}

#[test]
fn worker_walks_its_range_in_a_cycle() {
    let mut worker = worker_on(100, 110);
    let mut visited = Vec::new();
    for _ in 0..25 {
        assert!(worker.has_room());
        let operation = worker.next_operation(0);
        visited.push(operation.block);
        assert_eq!(operation.offset_bytes, operation.block * BLOCK_SIZE);
        worker.complete_with_draw(&operation, 10, 500);
    }
    let mut expected: Vec<u64> = (100..110).collect();
    expected.extend(100..110);
    expected.extend(100..105);
    assert_eq!(visited, expected);
    assert_eq!(worker.operations(), 25);
}

#[test]
fn worker_with_one_block_writes_it_again_and_again() {
    let mut worker = worker_on(5, 6);
    for _ in 0..4 {
        let operation = worker.next_operation(0);
        assert_eq!(operation.block, 5);
        assert_eq!(operation.offset_bytes, 5 * 4096);
        worker.complete_with_draw(&operation, 1, 999);
    }
}

#[test]
fn worker_without_blocks_writes_at_the_start_of_its_range() {
    let mut worker = worker_on(9, 9);
    for _ in 0..3 {
        let operation = worker.next_operation(0);
        assert_eq!(operation.block, 9);
        worker.complete_with_draw(&operation, 1, 999);
    }
    let mut inverted = worker_on(9, 3);
    for _ in 0..3 {
        let operation = inverted.next_operation(0);
        assert_eq!(operation.block, 9);
        inverted.complete_with_draw(&operation, 1, 999);
    }
}

#[test]
fn worker_keeps_a_latency_on_draws_zero_and_one() {
    assert!(is_retained(0));
    assert!(is_retained(1));
    assert!(!is_retained(2));
    assert!(!is_retained(999));
    assert!(!is_retained(u64::MAX));
    let kept = (0..1000u64).filter(|draw| is_retained(*draw)).count();
    assert_eq!(kept, 2);
}

#[test]
fn worker_tags_samples_with_operation_and_run() {
    let limiter = RateLimiter::new(1000, 1, 0, false, 0);
    let mut worker = Worker::new(0..4, 0xabcdef, limiter, 0, 10).unwrap();
    let draws = [5u64, 1, 700, 0, 2, 1];
    for (index, draw) in draws.iter().enumerate() {
        let operation = worker.next_operation(0);
        worker.complete_with_draw(&operation, 100 + index as u64, *draw);
    }
    assert_eq!(worker.operations(), 6);
    assert_eq!(
        worker.into_samples(),
        vec![
            Sample { latency: 101, id: 1, uuid: 0xabcdef },
            Sample { latency: 103, id: 3, uuid: 0xabcdef },
            Sample { latency: 105, id: 5, uuid: 0xabcdef },
        ]
    );
}

#[test]
fn worker_folds_drift_into_the_latency() {
    let limiter = RateLimiter::new(1000, 1, 0, false, 0);
    let mut worker = Worker::new(0..4, 1, limiter, 0, 10).unwrap();
    let operation = worker.next_operation(2_500_000);
    assert_eq!(operation.pacing.deadline_nanos, 2_000_000);
    assert_eq!(operation.pacing.drift_nanos, 500_000);
    worker.complete_with_draw(&operation, 70_000, 0);
    let operation = worker.next_operation(2_600_000);
    assert_eq!(operation.pacing.deadline_nanos, 3_000_000);
    assert_eq!(operation.pacing.drift_nanos, 0);
    assert!(!operation.pacing.is_due(2_600_000));
    assert!(operation.pacing.is_due(3_000_000));
    worker.complete_with_draw(&operation, 70_000, 0);
    assert_eq!(
        worker.into_samples(),
        vec![
            Sample { latency: 570_000, id: 0, uuid: 1 },
            Sample { latency: 70_000, id: 1, uuid: 1 },
        ]
    );
}

#[test]
fn worker_runs_until_its_time_is_over() {
    let limiter = RateLimiter::new(1000, 1, 0, false, 0);
    let worker = Worker::new(0..4, 1, limiter, 500, 2).unwrap();
    assert!(worker.is_running(0));
    assert!(worker.is_running(500));
    assert!(worker.is_running(2_000_000_499));
    assert!(!worker.is_running(2_000_000_500));
    assert!(!worker.is_running(u64::MAX));
    let never = Worker::new(0..4, 1, limiter, 500, 0).unwrap();
    assert!(never.is_running(499));
    assert!(!never.is_running(500));
}

#[test]
fn worker_needs_byte_offsets_that_fit() {
    let limiter = RateLimiter::new(1000, 1, 0, false, 0);
    let last = u64::MAX / BLOCK_SIZE;
    assert!(Worker::new(0..last, 1, limiter, 0, 1).is_some());
    assert!(Worker::new(0..last + 1, 1, limiter, 0, 1).is_none());
    assert!(Worker::new(last + 1..0, 1, limiter, 0, 1).is_none());
    assert!(Worker::new(0..u64::MAX, 1, limiter, 0, 1).is_none());
}

#[test]
fn worker_has_no_room_when_its_schedule_is_exhausted() {
    let limiter =
        RateLimiter { rate: 1_000_000, threads: 1, start_nanos: u128::MAX - 2500, scheduled: 1 };
    let mut worker = Worker::new(0..4, 1, limiter, 0, 1).unwrap();
    assert!(worker.has_room());
    let operation = worker.next_operation(0);
    assert_eq!(operation.pacing.deadline_nanos, u128::MAX - 500);
    worker.complete_with_draw(&operation, 1, 999);
    assert!(!worker.has_room());
}

#[test]
fn full_write_is_one_block() {
    assert!(is_full_write(4096));
    assert!(!is_full_write(0));
    assert!(!is_full_write(4095));
    assert!(!is_full_write(4097));
    assert!(!is_full_write(8192));
}

#[test]
fn sampling_keeps_about_two_in_a_thousand() {
    fastrand::seed(0x5eed);
    let limiter = RateLimiter::new(1_000_000_000, 1, 0, false, 0);
    let mut worker = Worker::new(0..1000, 3, limiter, 0, 1).unwrap();
    let operations = 1_000_000u64;
    for _ in 0..operations {
        let operation = worker.next_operation(0);
        worker.complete(&operation, 50);
    }
    assert_eq!(worker.operations(), operations);
    let samples = worker.into_samples();
    let kept = samples.len() as u64;
    assert!(kept >= 1700 && kept <= 2300);
    let mut previous: Option<u64> = None;
    for sample in samples.iter() {
        assert_eq!(sample.uuid, 3);
        assert_eq!(sample.latency, 50);
        assert!(sample.id < operations);
        if let Some(before) = previous {
            assert!(before < sample.id);
        }
        previous = Some(sample.id);
    }
}
