use nekoframe::aggregate::ProcessRecord;
use nekoframe::health::evaluate_health;
use nekoframe::process::ProcSample;
use nekoframe::snapshot::{build_snapshot, tick_snapshot, MetricSample};
use nekoframe::wire::emit_payload;

fn sample_snapshot() -> nekoframe::snapshot::Snapshot {
    let sample = MetricSample {
        cpu_usage: 42,
        ram_usage: 67,
        gpu_usage: 13,
        gpu_temp: 55,
        gpu_name: b"Example GPU".to_vec(),
        os_name: b"Linux 6.1".to_vec(),
        cpu_name: b"Example CPU".to_vec(),
        ram_amount: b"16.0 GB".to_vec(),
        network_down_centi_mb: 1234,
        network_up_centi_mb: 7,
        disks: vec![
            b"/:: 75.0 GB / 100.0 GB (25.0 GB free)".to_vec(),
            b"/data:: 1.5 GB / 8.0 GB (6.5 GB free)".to_vec(),
        ],
        host_name: b"example-host".to_vec(),
    };
    let top = vec![
        ProcessRecord { name: b"chrome".to_vec(), pid: 100, cpu_milli: 625, memory: 31457280 },
        ProcessRecord { name: b"editor".to_vec(), pid: 7, cpu_milli: 125, memory: 1024 },
    ];
    let health = evaluate_health(42, 13, 55, 67);
    build_snapshot(sample, 23, top, health)
}

#[test]
fn payload_parses_with_all_fields_typed() {
    let snapshot = sample_snapshot();
    let bytes = emit_payload(&snapshot);
    let value: serde_json::Value = serde_json::from_slice(&bytes).expect("payload must be JSON");
    let obj = value.as_object().expect("payload is an object");
    assert_eq!(obj.len(), 15);
    assert_eq!(obj["cpu_usage"].as_u64(), Some(42));
    assert_eq!(obj["ram_usage"].as_u64(), Some(67));
    assert_eq!(obj["gpu_usage"].as_u64(), Some(13));
    assert_eq!(obj["gpu_temp"].as_u64(), Some(55));
    assert_eq!(obj["gpu_name"].as_str(), Some("Example GPU"));
    assert_eq!(obj["os_name"].as_str(), Some("Linux 6.1"));
    assert_eq!(obj["cpu_name"].as_str(), Some("Example CPU"));
    assert_eq!(obj["ram_amount"].as_str(), Some("16.0 GB"));
    assert_eq!(obj["network_down"].as_f64(), Some(12.34));
    assert_eq!(obj["network_up"].as_f64(), Some(0.07));
    let disks = obj["disks"].as_array().expect("disks is an array");
    assert_eq!(disks.len(), 2);
    assert_eq!(disks[0].as_str(), Some("/:: 75.0 GB / 100.0 GB (25.0 GB free)"));
    assert_eq!(obj["process_count"].as_u64(), Some(23));
    let top = obj["top_processes"].as_array().expect("top_processes is an array");
    assert_eq!(top.len(), 2);
    let first = top[0].as_object().expect("a record is an object");
    assert_eq!(first.len(), 4);
    assert_eq!(first["name"].as_str(), Some("chrome"));
    assert_eq!(first["pid"].as_u64(), Some(100));
    assert_eq!(first["cpu_usage"].as_f64(), Some(0.625));
    assert_eq!(first["memory_usage"].as_u64(), Some(31457280));
    assert_eq!(obj["host_name"].as_str(), Some("example-host"));
    let health = obj["health"].as_object().expect("health is an object");
    assert_eq!(health.len(), 2);
    assert_eq!(health["status"].as_str(), Some("Healthy"));
    assert_eq!(health["warnings"].as_array().map(|w| w.len()), Some(0));
}

#[test]
fn payload_escapes_strings() {
    let mut snapshot = sample_snapshot();
    snapshot.sample.host_name = b"a\"b\\c\nd".to_vec();
    let bytes = emit_payload(&snapshot);
    let value: serde_json::Value = serde_json::from_slice(&bytes).expect("payload must be JSON");
    assert_eq!(value["host_name"].as_str(), Some("a\"b\\c\nd"));
}

#[test]
fn payload_carries_warnings() {
    let sample = MetricSample {
        cpu_usage: 96,
        ram_usage: 50,
        gpu_usage: 0,
        gpu_temp: 0,
        gpu_name: b"GPU not found".to_vec(),
        os_name: b"Linux".to_vec(),
        cpu_name: b"cpu".to_vec(),
        ram_amount: b"8.0 GB".to_vec(),
        network_down_centi_mb: 0,
        network_up_centi_mb: 0,
        disks: vec![],
        host_name: b"h".to_vec(),
    };
    let health = evaluate_health(96, 0, 0, 50);
    let snapshot = build_snapshot(sample, 0, vec![], health);
    let bytes = emit_payload(&snapshot);
    let value: serde_json::Value = serde_json::from_slice(&bytes).expect("payload must be JSON");
    assert_eq!(value["health"]["status"].as_str(), Some("Warning"));
    let warnings = value["health"]["warnings"].as_array().expect("warnings array");
    assert_eq!(warnings.len(), 1);
    assert_eq!(warnings[0].as_str(), Some("High CPU usage: 96%"));
    assert_eq!(value["disks"].as_array().map(|d| d.len()), Some(0));
    assert_eq!(value["top_processes"].as_array().map(|t| t.len()), Some(0));
}

#[test]
fn tick_snapshot_assembles_everything() {
    let table = vec![
        ProcSample { name: b"chrome".to_vec(), pid: 100, cpu_milli: 3000, memory: 10485760 },
        ProcSample { name: b"chrome".to_vec(), pid: 101, cpu_milli: 2000, memory: 20971521 },
    ];
    let snapshot = tick_snapshot(
        &table,
        8,
        8 * 96000,
        16320875725,
        17179869184,
        &None,
        1048576,
        524288,
        b"GPU not found".to_vec(),
        b"Linux 6.1".to_vec(),
        b"Example CPU".to_vec(),
        b"16.0 GB".to_vec(),
        vec![b"/:: 75.0 GB / 100.0 GB (25.0 GB free)".to_vec()],
        b"example-host".to_vec(),
    );
    assert_eq!(snapshot.sample.cpu_usage, 96);
    assert_eq!(snapshot.sample.ram_usage, 95);
    assert_eq!(snapshot.sample.gpu_usage, 0);
    assert_eq!(snapshot.sample.gpu_temp, 0);
    assert_eq!(snapshot.sample.network_down_centi_mb, 100);
    assert_eq!(snapshot.sample.network_up_centi_mb, 50);
    // One app (memory just over 20 MiB) and one background process.
    assert_eq!(snapshot.process_count, 2);
    assert_eq!(snapshot.top_processes.len(), 1);
    assert_eq!(snapshot.top_processes[0].cpu_milli, 625);
    // CPU at 96% and all else nominal: exactly the one warning.
    let bytes = emit_payload(&snapshot);
    let value: serde_json::Value = serde_json::from_slice(&bytes).expect("payload must be JSON");
    assert_eq!(value["health"]["status"].as_str(), Some("Warning"));
    assert_eq!(
        value["health"]["warnings"][0].as_str(),
        Some("High CPU usage: 96%")
    );
    assert_eq!(value["cpu_usage"].as_u64(), Some(96));
}
