use nekoframe::aggregate::{top_processes, ProcessRecord};
use nekoframe::health::{evaluate_health, HealthStatus};
use nekoframe::process::{classify_processes, total_count, ProcSample};
use nekoframe::publisher::{should_publish, tick_transition, ConnState};
use nekoframe::sampler::{
    bytes_to_centi_mb, bytes_to_deci_gb, cpu_percent_avg, disk_line, gpu_gauges, gpu_name_label,
    os_label, percent_of, ram_amount_label,
};
use nekoframe::get_ws_url;

fn proc(name: &str, pid: u32, cpu_milli: u32, memory: u64) -> ProcSample {
    ProcSample { name: name.as_bytes().to_vec(), pid, cpu_milli, memory }
}

#[test]
fn health_status_iff_warnings() {
    for (cpu, gpu, temp, ram) in [
        (0u64, 0u64, 0u64, 0u64),
        (96, 0, 0, 0),
        (0, 96, 0, 0),
        (0, 0, 86, 0),
        (0, 0, 0, 96),
        (96, 96, 86, 96),
        (95, 95, 85, 95),
    ] {
        let v = evaluate_health(cpu, gpu, temp, ram);
        assert_eq!(v.status == HealthStatus::Warning, !v.warnings.is_empty());
    }
}

#[test]
fn high_cpu_warning_text() {
    let v = evaluate_health(96, 10, 40, 50);
    assert_eq!(v.status, HealthStatus::Warning);
    assert_eq!(v.warnings.len(), 1);
    assert_eq!(v.warnings[0], b"High CPU usage: 96%".to_vec());
}

#[test]
fn warning_texts_and_order() {
    let v = evaluate_health(97, 98, 90, 99);
    assert_eq!(v.status, HealthStatus::Warning);
    let expected: Vec<Vec<u8>> = vec![
        b"High CPU usage: 97%".to_vec(),
        b"High GPU usage: 98%".to_vec(),
        "High GPU temperature: 90\u{00b0}C".as_bytes().to_vec(),
        b"High RAM usage: 99%".to_vec(),
    ];
    assert_eq!(v.warnings, expected);
}

#[test]
fn thresholds_are_strict() {
    let v = evaluate_health(95, 95, 85, 95);
    assert_eq!(v.status, HealthStatus::Healthy);
    assert!(v.warnings.is_empty());
    let v = evaluate_health(0, 0, 0, 96);
    assert_eq!(v.status, HealthStatus::Warning);
    assert_eq!(v.warnings, vec![b"High RAM usage: 96%".to_vec()]);
}

#[test]
fn missing_gpu_defaults() {
    assert_eq!(gpu_name_label(None), b"GPU not found".to_vec());
    assert_eq!(gpu_gauges(&None), (0, 0));
    // Zeroed GPU gauges never contribute a warning, whatever the others read.
    let v = evaluate_health(96, 0, 0, 96);
    assert_eq!(
        v.warnings,
        vec![b"High CPU usage: 96%".to_vec(), b"High RAM usage: 96%".to_vec()]
    );
}

#[test]
fn ram_rounding_boundary() {
    // 15.2 GB of 16 GB is 95.0%: rounds to 95 and must not warn.
    let total: u64 = 17179869184;
    let used: u64 = 16320875725;
    let ram = percent_of(used, total);
    assert_eq!(ram, 95);
    let v = evaluate_health(0, 0, 0, ram);
    assert_eq!(v.status, HealthStatus::Healthy);
    let v = evaluate_health(0, 0, 0, 96);
    assert_eq!(v.status, HealthStatus::Warning);
}

#[test]
fn cpu_average_rounds_to_nearest() {
    // Four cores at 10%, 20%, 30%, 41%: mean 25.25% rounds to 25.
    assert_eq!(cpu_percent_avg(10000 + 20000 + 30000 + 41000, 4), 25);
    // Two cores at 10% and 11%: mean 10.5% rounds up to 11.
    assert_eq!(cpu_percent_avg(10000 + 11000, 2), 11);
    assert_eq!(cpu_percent_avg(0, 8), 0);
}

#[test]
fn network_and_capacity_units() {
    // 1 MiB moved is exactly 1.00 MB on the wire.
    assert_eq!(bytes_to_centi_mb(1048576), 100);
    // Half a MiB is 0.50 MB.
    assert_eq!(bytes_to_centi_mb(524288), 50);
    // 16 GiB is 160 tenths of a GB.
    assert_eq!(bytes_to_deci_gb(17179869184), 160);
    assert_eq!(ram_amount_label(17179869184), b"16.0 GB".to_vec());
}

#[test]
fn disk_line_format() {
    let total: u64 = 100 * 1073741824;
    let free: u64 = 25 * 1073741824;
    let line = disk_line(&b"/".to_vec(), total, free);
    assert_eq!(line, b"/:: 75.0 GB / 100.0 GB (25.0 GB free)".to_vec());
}

#[test]
fn os_label_joins_name_and_version() {
    let label = os_label(&b"Linux".to_vec(), &b"6.1".to_vec());
    assert_eq!(label, b"Linux 6.1".to_vec());
}

#[test]
fn classification_counts() {
    let table = vec![
        // An app by memory.
        proc("browser", 1, 5000, 64 * 1024 * 1024),
        // Background: CPU-active, harmless name, low memory.
        proc("editor", 2, 500, 1024),
        // Neither: CPU-active but denylisted name.
        proc("sysTEMd", 3, 500, 1024),
        // Neither: prefix "ms".
        proc("msedge_helper", 4, 500, 1024),
        // Neither: idle and small.
        proc("sleeper", 5, 0, 1024),
    ];
    let counts = classify_processes(&table);
    assert_eq!(counts.apps, 1);
    assert_eq!(counts.background, 1);
    assert_eq!(total_count(&counts), 2);
}

#[test]
fn classification_idempotent() {
    let table = vec![
        proc("browser", 1, 5000, 64 * 1024 * 1024),
        proc("editor", 2, 500, 1024),
        proc("svchost", 3, 500, 1024),
    ];
    let first = classify_processes(&table);
    let second = classify_processes(&table);
    assert_eq!(first.apps, second.apps);
    assert_eq!(first.background, second.background);
}

#[test]
fn empty_table_is_quiet() {
    let table: Vec<ProcSample> = vec![];
    let counts = classify_processes(&table);
    assert_eq!(total_count(&counts), 0);
    let top = top_processes(&table, 8);
    assert!(top.is_empty());
}

#[test]
fn chrome_aggregates_to_one_record() {
    // Two OS processes named "chrome" at 3.0% and 2.0% on an 8-core machine
    // collapse into one record at (3.0 + 2.0) / 8 percent.
    let table = vec![
        proc("chrome", 100, 3000, 10 * 1024 * 1024),
        proc("chrome", 101, 2000, 20 * 1024 * 1024),
    ];
    let top = top_processes(&table, 8);
    assert_eq!(top.len(), 1);
    assert_eq!(top[0].name, b"chrome".to_vec());
    assert_eq!(top[0].pid, 100);
    assert_eq!(top[0].cpu_milli, 625);
    assert_eq!(top[0].memory, 30 * 1024 * 1024);
}

#[test]
fn ranking_sorts_and_caps_at_ten() {
    let mut table = Vec::new();
    for i in 0..12u32 {
        table.push(proc(&format!("worker{}", i), i, 1000 + 100 * i, 1024));
    }
    let top = top_processes(&table, 1);
    assert_eq!(top.len(), 10);
    for w in top.windows(2) {
        assert!(w[0].cpu_milli >= w[1].cpu_milli);
    }
    // The two weakest workers fell off.
    assert_eq!(top[0].cpu_milli, 2100);
    assert_eq!(top[9].cpu_milli, 1200);
}

#[test]
fn ranking_skips_system_and_idle() {
    let table = vec![
        proc("System Idle Process", 1, 90000, 1024),
        proc("busy", 2, 1000, 1024),
        proc("idle_tool", 3, 5, 1024),
    ];
    let top = top_processes(&table, 1);
    assert_eq!(top.len(), 1);
    assert_eq!(top[0].name, b"busy".to_vec());
}

#[test]
fn publisher_transitions() {
    let s = tick_transition(ConnState::Connected, true);
    assert_eq!(s, ConnState::Connected);
    assert!(should_publish(&s));
    // One failed send closes the connection at once...
    let s = tick_transition(s, false);
    assert_eq!(s, ConnState::Closed);
    assert!(!should_publish(&s));
    // ...and nothing reopens it.
    let s = tick_transition(s, true);
    assert_eq!(s, ConnState::Closed);
    assert!(!should_publish(&s));
}

#[test]
fn endpoint_url_is_fixed() {
    assert_eq!(get_ws_url(), "ws://127.0.0.1:3069/ws");
}

#[test]
fn record_fields_are_public_values() {
    let r = ProcessRecord {
        name: b"worker".to_vec(),
        pid: 7,
        cpu_milli: 1500,
        memory: 4096,
    };
    assert_eq!(r.name, b"worker".to_vec());
    assert_eq!(r.cpu_milli, 1500);
}
