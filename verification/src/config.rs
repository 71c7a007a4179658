//! The configuration of a benchmark and the record of one of its runs.
//!
//! Fractions (of the device's capacity, of its rated rate) are only carried
//! here, never computed with: the types leave their representation `F` to
//! the caller.

use vstd::prelude::*;

verus! {

/// What the user asked for.
#[derive(Clone, Debug)]
pub struct CliConfig<F> {
    /// A name for the kind of machine, for the record.
    pub instance_type: String,
    /// The number of workers.
    pub writer_threads: u64,
    /// Whether the usable capacity is written once before the runs.
    pub preinitialize: bool,
    /// The fraction of the device that is used.
    pub capacity_fraction: F,
    /// The rate that the device is rated for, in operations per second.
    pub max_iops: u64,
    /// The fractions of `max_iops` at which a run is made, one run each.
    pub utilization_iops: Vec<F>,
    /// Whether every write is followed by a durable flush.
    pub use_fsync: bool,
    /// Whether all samples are stored beside the summary.
    pub serialize_samples: bool,
    /// Whether all workers start their first operation together.
    pub spiky: bool,
    /// The kernel's name of the block device.
    pub ssd_device: String,
    /// How long each run lasts.
    pub runtime_seconds: u64,
    /// Where the summaries go.
    pub summary_file: String,
    /// Where the samples go.
    pub samples_file: String,
}

/// The record of one run: the configuration in force, the machine and the
/// time, the target rate, and the run's identifier.
#[derive(Clone, Debug)]
pub struct BenchmarkConfig<F> {
    pub instance_type: String,
    /// When the record was made, in seconds since the Unix epoch.
    pub start_time: u64,
    pub hostname: String,
    pub ssd_device: String,
    pub writer_threads: u64,
    pub runtime_seconds: u64,
    pub preinitialize: bool,
    pub capacity_fraction: F,
    pub max_iops: u64,
    /// The rate of this run in operations per second, all workers together.
    pub iops: u64,
    /// The fraction of `max_iops` that `iops` stands for.
    pub utilization_iop: F,
    pub use_fsync: bool,
    pub uuid: u128,
    pub spiky: bool,
}

/// The record of a run under `config` at the given utilization and rate,
/// made at `start_time` on the machine `hostname`.
pub open spec fn snapshot<F>(
    config: CliConfig<F>,
    iops_utilization: F,
    iops: u64,
    uuid: u128,
    start_time: u64,
    hostname: String,
) -> BenchmarkConfig<F> {
    BenchmarkConfig {
        instance_type: config.instance_type,
        start_time,
        hostname,
        ssd_device: config.ssd_device,
        writer_threads: config.writer_threads,
        runtime_seconds: config.runtime_seconds,
        preinitialize: config.preinitialize,
        capacity_fraction: config.capacity_fraction,
        max_iops: config.max_iops,
        iops,
        utilization_iop: iops_utilization,
        use_fsync: config.use_fsync,
        uuid,
        spiky: config.spiky,
    }
}

/// Reads the system clock with `SystemTime::elapsed` on the Unix epoch.
/// Trusted, and nothing is claimed: the seconds that have passed since the
/// epoch, or nothing where the clock stands before it.
#[verifier::external_body]
fn seconds_since_unix_epoch() -> (seconds: Option<u64>) {
    std::time::UNIX_EPOCH.elapsed().ok().map(|elapsed| elapsed.as_secs())
}

/// Asks `gethostname::gethostname` for the machine's name. Trusted, and
/// nothing is claimed: the name, or nothing where it is not valid Unicode.
#[verifier::external_body]
fn local_hostname() -> (hostname: Option<String>) {
    gethostname::gethostname().into_string().ok()
}

impl<F: Copy> BenchmarkConfig<F> {
    /// The record of a run under `config` at the given utilization and rate,
    /// made at `start_time` on the machine `hostname`.
    pub fn assemble(
        config: &CliConfig<F>,
        iops_utilization: F,
        iops: u64,
        uuid: u128,
        start_time: u64,
        hostname: String,
    ) -> (record: BenchmarkConfig<F>)
        ensures
            record == snapshot(*config, iops_utilization, iops, uuid, start_time, hostname),
    {
        BenchmarkConfig {
            instance_type: config.instance_type.clone(),
            start_time,
            hostname,
            ssd_device: config.ssd_device.clone(),
            writer_threads: config.writer_threads,
            runtime_seconds: config.runtime_seconds,
            preinitialize: config.preinitialize,
            capacity_fraction: config.capacity_fraction,
            max_iops: config.max_iops,
            iops,
            utilization_iop: iops_utilization,
            use_fsync: config.use_fsync,
            uuid,
            spiky: config.spiky,
        }
    }

    /// The record of a run under `config` at the given utilization and rate,
    /// made now and on this machine. There is none where the clock stands
    /// before the Unix epoch or the machine's name is not valid Unicode.
    pub fn from_cli_config(config: &CliConfig<F>, iops_utilization: F, iops: u64, uuid: u128) -> (record:
        Option<BenchmarkConfig<F>>)
        ensures
            record matches Some(r) ==> r == snapshot(
                *config,
                iops_utilization,
                iops,
                uuid,
                r.start_time,
                r.hostname,
            ),
    {
        let start_time = seconds_since_unix_epoch();
        let hostname = local_hostname();
        Self::from_readings(config, iops_utilization, iops, uuid, start_time, hostname)
    }

    /// The record of a run under `config` at the given utilization and rate,
    /// given what the clock and the machine answered: there is a record where
    /// both gave an answer, and none where either did not.
    pub fn from_readings(
        config: &CliConfig<F>,
        iops_utilization: F,
        iops: u64,
        uuid: u128,
        start_time: Option<u64>,
        hostname: Option<String>,
    ) -> (record: Option<BenchmarkConfig<F>>)
        ensures
            record == record_from(*config, iops_utilization, iops, uuid, start_time, hostname),
    {
        match (start_time, hostname) {
            (Some(seconds), Some(name)) => Some(
                Self::assemble(config, iops_utilization, iops, uuid, seconds, name),
            ),
            _ => None,
        }
    }
}

/// The record of a run under `config`, given the seconds since the Unix epoch
/// and the machine's name as far as they are known.
pub open spec fn record_from<F>(
    config: CliConfig<F>,
    iops_utilization: F,
    iops: u64,
    uuid: u128,
    start_time: Option<u64>,
    hostname: Option<String>,
) -> Option<BenchmarkConfig<F>> {
    match (start_time, hostname) {
        (Some(seconds), Some(name)) => Some(
            snapshot(config, iops_utilization, iops, uuid, seconds, name),
        ),
        _ => None,
    }
}

} // verus!
