//! The immutable per-tick snapshot: the sampler's gauges and labels, the
//! process aggregator's count and ranked list, and the health verdict,
//! assembled by value with no computation. Exactly one snapshot is built and
//! sent per tick, then discarded.
use vstd::prelude::*;

use crate::aggregate::ProcessRecord;
use crate::aggregate::TOP_LIMIT;
use crate::aggregate::ranking_of;
use crate::aggregate::sorted_desc;
use crate::aggregate::top_processes;
use crate::aggregate::total_memory;
use crate::health::HealthVerdict;
use crate::health::any_threshold;
use crate::health::evaluate_health;
use crate::health::warnings_spec;
use crate::health::HealthStatus;
use crate::process::classify_processes;
use crate::process::count_apps;
use crate::process::count_background;
use crate::process::ProcSample;
use crate::process::total_count;
use crate::sampler::BYTES_PER_MB;
use crate::sampler::bytes_to_centi_mb;
use crate::sampler::cpu_percent_avg;
use crate::sampler::gpu_gauges;
use crate::sampler::percent_of;
use crate::sampler::rounded_div;

verus! {

/// The gauges and labels of one tick. Percentages are rounded integers,
/// network traffic is in hundredths of a megabyte, and the labels are UTF-8
/// byte strings formatted by the sampler.
pub struct MetricSample {
    pub cpu_usage: u64,
    pub ram_usage: u64,
    pub gpu_usage: u64,
    pub gpu_temp: u64,
    pub gpu_name: Vec<u8>,
    pub os_name: Vec<u8>,
    pub cpu_name: Vec<u8>,
    pub ram_amount: Vec<u8>,
    pub network_down_centi_mb: u64,
    pub network_up_centi_mb: u64,
    pub disks: Vec<Vec<u8>>,
    pub host_name: Vec<u8>,
}

/// The outbound unit of one tick.
pub struct Snapshot {
    pub sample: MetricSample,
    pub process_count: usize,
    pub top_processes: Vec<ProcessRecord>,
    pub health: HealthVerdict,
}

/// Pure assembly: every field of the snapshot is exactly the argument it was
/// built from; nothing is computed and nothing is left unset.
pub fn build_snapshot(
    sample: MetricSample,
    process_count: usize,
    top_processes: Vec<ProcessRecord>,
    health: HealthVerdict,
) -> (s: Snapshot)
    ensures
        s.sample == sample,
        s.process_count == process_count,
        s.top_processes == top_processes,
        s.health == health,
{
    Snapshot { sample, process_count, top_processes, health }
}

/// One whole tick, from raw readings to the outbound snapshot: derive the
/// rounded gauges, classify and rank the process table, judge health from
/// the derived gauges, and assemble the record. The labels were fixed at
/// connection start and pass through unchanged.
pub fn tick_snapshot(
    table: &Vec<ProcSample>,
    cores: u32,
    cpu_sum_milli: u64,
    ram_used: u64,
    ram_total: u64,
    gpu_reading: &Option<(u64, u64)>,
    rx_bytes: u64,
    tx_bytes: u64,
    gpu_name: Vec<u8>,
    os_name: Vec<u8>,
    cpu_name: Vec<u8>,
    ram_amount: Vec<u8>,
    disks: Vec<Vec<u8>>,
    host_name: Vec<u8>,
) -> (s: Snapshot)
    requires
        cores >= 1,
        cpu_sum_milli <= 100000 * (cores as u64),
        ram_total >= 1,
        ram_used <= ram_total,
        table@.len() <= 0x8000_0000,
        total_memory(table@) <= u64::MAX,
    ensures
        s.sample.cpu_usage == rounded_div(cpu_sum_milli as int, 1000 * (cores as int)),
        s.sample.ram_usage == rounded_div(100 * ram_used, ram_total as int),
        s.sample.cpu_usage <= 100 && s.sample.ram_usage <= 100,
        (match gpu_reading {
            Some(g) => s.sample.gpu_usage == g.0 && s.sample.gpu_temp == g.1,
            None => s.sample.gpu_usage == 0 && s.sample.gpu_temp == 0,
        }),
        s.sample.network_down_centi_mb == rounded_div(100 * rx_bytes, BYTES_PER_MB as int),
        s.sample.network_up_centi_mb == rounded_div(100 * tx_bytes, BYTES_PER_MB as int),
        s.sample.gpu_name == gpu_name,
        s.sample.os_name == os_name,
        s.sample.cpu_name == cpu_name,
        s.sample.ram_amount == ram_amount,
        s.sample.disks == disks,
        s.sample.host_name == host_name,
        s.process_count == count_background(table@) + count_apps(table@),
        ranking_of(table@, cores, s.top_processes@),
        sorted_desc(s.top_processes@),
        s.top_processes@.len() <= TOP_LIMIT,
        s.health.warnings.deep_view() == warnings_spec(
            s.sample.cpu_usage,
            s.sample.gpu_usage,
            s.sample.gpu_temp,
            s.sample.ram_usage,
        ),
        (s.health.status == HealthStatus::Warning) <==> any_threshold(
            s.sample.cpu_usage,
            s.sample.gpu_usage,
            s.sample.gpu_temp,
            s.sample.ram_usage,
        ),
        (s.health.status == HealthStatus::Warning) <==> s.health.warnings@.len() > 0,
{
    let counts = classify_processes(table);
    let process_count = total_count(&counts);
    let top = top_processes(table, cores);
    let cpu_usage = cpu_percent_avg(cpu_sum_milli, cores);
    let ram_usage = percent_of(ram_used, ram_total);
    let (gpu_usage, gpu_temp) = gpu_gauges(gpu_reading);
    let network_down_centi_mb = bytes_to_centi_mb(rx_bytes);
    let network_up_centi_mb = bytes_to_centi_mb(tx_bytes);
    let health = evaluate_health(cpu_usage, gpu_usage, gpu_temp, ram_usage);
    let sample = MetricSample {
        cpu_usage,
        ram_usage,
        gpu_usage,
        gpu_temp,
        gpu_name,
        os_name,
        cpu_name,
        ram_amount,
        network_down_centi_mb,
        network_up_centi_mb,
        disks,
        host_name,
    };
    build_snapshot(sample, process_count, top, health)
}

} // verus!
