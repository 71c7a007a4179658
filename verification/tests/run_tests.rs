use ssd_benchy::barrier::is_open_at;
use ssd_benchy::barrier::StartBarrier;
use ssd_benchy::config::BenchmarkConfig;
use ssd_benchy::config::CliConfig;
use ssd_benchy::orchestrator::merge_samples;
use ssd_benchy::orchestrator::plan_run;
use ssd_benchy::partition::partition;
use ssd_benchy::preinit::InitPass;
use ssd_benchy::preinit::INIT_BLOCK_SIZE;
use ssd_benchy::stats::Sample;

fn cli_config() -> CliConfig<f64> {
    CliConfig {
        instance_type: String::from("i3en.3xlarge"),
        writer_threads: 10,
        preinitialize: true,
        capacity_fraction: 0.8,
        max_iops: 200000,
        utilization_iops: vec![0.5, 0.6, 0.7],
        use_fsync: true,
        serialize_samples: true,
        spiky: false,
        ssd_device: String::from("nvme1n1"),
        runtime_seconds: 300,
        summary_file: String::from("summary_file.csv"),
        samples_file: String::from("samples_file.csv"),
    }
}

#[test]
fn record_is_assembled_from_its_parts() {
    let config = cli_config();
    let record =
        BenchmarkConfig::assemble(&config, 0.7, 140000, 99, 1_700_000_000, String::from("host-a"));
    assert_eq!(record.instance_type, "i3en.3xlarge");
    assert_eq!(record.start_time, 1_700_000_000);
    assert_eq!(record.hostname, "host-a");
    assert_eq!(record.ssd_device, "nvme1n1");
    assert_eq!(record.writer_threads, 10);
    assert_eq!(record.runtime_seconds, 300);
    assert!(record.preinitialize);
    assert_eq!(record.capacity_fraction, 0.8);
    assert_eq!(record.max_iops, 200000);
    assert_eq!(record.iops, 140000);
    assert_eq!(record.utilization_iop, 0.7);
    assert!(record.use_fsync);
    assert_eq!(record.uuid, 99);
    assert!(!record.spiky);
}

#[test]
fn record_made_here_and_now_copies_the_configuration() {
    let mut config = cli_config();
    config.spiky = true;
    config.use_fsync = false;
    let record = BenchmarkConfig::from_cli_config(&config, 0.5, 100000, 12345)
        .expect("system time and hostname are available");
    assert_eq!(record.instance_type, "i3en.3xlarge");
    assert_eq!(record.ssd_device, "nvme1n1");
    assert_eq!(record.writer_threads, 10);
    assert_eq!(record.runtime_seconds, 300);
    assert!(record.preinitialize);
    assert_eq!(record.capacity_fraction, 0.8);
    assert_eq!(record.max_iops, 200000);
    assert_eq!(record.iops, 100000);
    assert_eq!(record.utilization_iop, 0.5);
    assert!(!record.use_fsync);
    assert_eq!(record.uuid, 12345);
    assert!(record.spiky);
    assert!(record.start_time > 1_600_000_000);
    assert_eq!(record.hostname, gethostname::gethostname().into_string().unwrap());
}

#[test]
fn record_needs_both_the_time_and_the_hostname() {
    let config = cli_config();
    let host = || Some(String::from("host-a"));
    let record = BenchmarkConfig::from_readings(&config, 0.6, 120000, 7, Some(1_700_000_000), host())
        .unwrap();
    assert_eq!(record.start_time, 1_700_000_000);
    assert_eq!(record.hostname, "host-a");
    assert_eq!(record.instance_type, "i3en.3xlarge");
    assert_eq!(record.ssd_device, "nvme1n1");
    assert_eq!(record.iops, 120000);
    assert_eq!(record.utilization_iop, 0.6);
    assert_eq!(record.uuid, 7);
    assert!(BenchmarkConfig::from_readings(&config, 0.6, 120000, 7, None, host()).is_none());
    assert!(BenchmarkConfig::from_readings(&config, 0.6, 120000, 7, Some(1), None).is_none());
    assert!(BenchmarkConfig::from_readings(&config, 0.6, 120000, 7, None, None).is_none());
    assert!(BenchmarkConfig::from_readings(&config, 0.6, 120000, 7, Some(0), Some(String::new()))
        .is_some());
}

#[test]
fn plan_gives_every_worker_its_range() {
    let plan = plan_run(4, 10);
    assert_eq!(plan.ranges, vec![0..2, 2..4, 4..6, 6..10]);
    let plan = plan_run(1, 10);
    assert_eq!(plan.ranges, vec![0..10]);
    let plan = plan_run(0, 10);
    assert!(plan.ranges.is_empty());
    let plan = plan_run(64, 10000);
    assert_eq!(plan.ranges.len(), 64);
    for id in 0..64u64 {
        assert_eq!(plan.ranges[id as usize], partition(id, 64, 10000));
    }
}

#[test]
fn plan_has_a_random_identifier_of_version_four() {
    let first = plan_run(2, 100);
    let second = plan_run(2, 100);
    for id in [first.run_id, second.run_id] {
        assert_eq!((id >> 76) & 0xf, 4);
        assert_eq!((id >> 62) & 0x3, 2);
    }
    assert_ne!(first.run_id, second.run_id);
}

#[test]
fn samples_are_merged_in_the_order_of_the_workers() {
    let sample = |latency: u128, id: u64| Sample { latency, id, uuid: 1 };
    let parts = vec![
        vec![sample(30, 0), sample(10, 5)],
        vec![],
        vec![sample(20, 2)],
        vec![sample(5, 1), sample(6, 2), sample(7, 3)],
    ];
    assert_eq!(
        merge_samples(parts),
        vec![sample(30, 0), sample(10, 5), sample(20, 2), sample(5, 1), sample(6, 2), sample(7, 3)]
    );
    assert_eq!(merge_samples(Vec::new()), Vec::new());
    assert_eq!(merge_samples(vec![Vec::new(), Vec::new()]), Vec::new());
}

#[test]
fn barrier_opens_when_all_have_arrived() {
    assert!(is_open_at(4, 4));
    assert!(!is_open_at(3, 4));
    assert!(!is_open_at(5, 4));
    assert!(is_open_at(0, 0));
    let barrier = StartBarrier::new(3);
    assert!(!barrier.is_open());
    barrier.arrive();
    assert!(!barrier.is_open());
    barrier.arrive();
    assert!(!barrier.is_open());
    barrier.arrive();
    assert!(barrier.is_open());
}

#[test]
fn init_pass_writes_front_to_back() {
    let mut pass = InitPass::new(3).unwrap();
    assert_eq!(pass.initialized_bytes(), 0);
    assert_eq!(pass.next_offset(), Some(0));
    assert!(pass.record(2097152));
    assert_eq!(pass.next_offset(), Some(2097152));
    assert!(pass.record(2097152));
    assert_eq!(pass.next_offset(), Some(4194304));
    assert_eq!(pass.initialized_bytes(), 4194304);
    assert!(pass.record(2097152));
    assert_eq!(pass.next_offset(), None);
    assert_eq!(pass.initialized_bytes(), 3 * INIT_BLOCK_SIZE);
}

#[test]
fn init_pass_refuses_a_short_write() {
    let mut pass = InitPass::new(2).unwrap();
    assert!(!pass.record(4096));
    assert!(!pass.record(0));
    assert!(!pass.record(2097153));
    assert_eq!(pass.next_offset(), Some(0));
    assert_eq!(pass.initialized_bytes(), 0);
    assert!(pass.record(2097152));
    assert_eq!(pass.next_offset(), Some(2097152));
}

#[test]
fn init_pass_without_writes_is_finished() {
    let pass = InitPass::new(0).unwrap();
    assert_eq!(pass.next_offset(), None);
    assert_eq!(pass.initialized_bytes(), 0);
}

#[test]
fn init_pass_needs_byte_offsets_that_fit() {
    let most = u64::MAX / INIT_BLOCK_SIZE;
    assert!(InitPass::new(most).is_some());
    assert!(InitPass::new(most + 1).is_none());
    assert!(InitPass::new(u64::MAX).is_none());
}
