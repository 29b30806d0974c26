use mooncell::errors::TopError;
use mooncell::history::HistoryBuffer;
use mooncell::info::{CounterSnapshot, Info};
use mooncell::telemetry::{
    core_usage_bp, disk_usage_list, mem_usage_bp, mem_used_bytes, CoreTicks, DiskInfo, MemCounters,
};

fn ticks(user: u64, nice: u64, system: u64, idle: u64, iowait: u64) -> CoreTicks {
    CoreTicks { user, nice, system, idle, iowait, irq: 0, softirq: 0, steal: 0 }
}

fn snapshot_with_cpu(cores: Vec<CoreTicks>) -> CounterSnapshot {
    CounterSnapshot {
        cpu: Some(cores),
        memory: None,
        disks: Vec::new(),
        temp_millic: None,
        power_milliwatt: None,
    }
}

#[test]
fn one_second_delta_is_a_third() {
    // 50 busy ticks out of a 150-tick delta: 33.33%.
    let a = ticks(100, 0, 0, 900, 0);
    let b = ticks(150, 0, 0, 950, 50);
    let r = core_usage_bp(&a, &b);
    assert_eq!(r, Ok(3333));
}

#[test]
fn no_advance_is_a_failure_not_a_division() {
    let a = ticks(100, 0, 0, 900, 0);
    let r = core_usage_bp(&a, &a);
    assert_eq!(r, Err(TopError::EmptyError));
}

#[test]
fn counter_reset_is_a_failure() {
    let before = ticks(500, 0, 0, 500, 0);
    let after_reset = ticks(1, 0, 0, 5, 0);
    assert!(core_usage_bp(&before, &after_reset).is_err());
}

#[test]
fn usage_is_clamped_to_full() {
    // Idle went backwards while the total advanced: busy delta exceeds the
    // total delta, so the result clamps at 100%.
    let a = ticks(100, 0, 0, 900, 0);
    let b = ticks(300, 0, 0, 850, 0);
    let r = core_usage_bp(&a, &b).unwrap();
    assert_eq!(r, 10000);
}

#[test]
fn usage_is_clamped_to_zero() {
    // Only idle advanced: zero usage, a valid reading.
    let a = ticks(100, 0, 0, 900, 0);
    let b = ticks(100, 0, 0, 1000, 0);
    assert_eq!(core_usage_bp(&a, &b), Ok(0));
}

#[test]
fn usage_is_deterministic() {
    let a = ticks(123, 4, 56, 7890, 12);
    let b = ticks(223, 8, 99, 8890, 20);
    assert_eq!(core_usage_bp(&a, &b), core_usage_bp(&a, &b));
}

#[test]
fn memory_usage_from_counters() {
    let m = MemCounters { total: 100, free: 20, buffers: 3, cache: 2 };
    assert_eq!(mem_used_bytes(&m), 75);
    assert_eq!(mem_usage_bp(&m), Ok(7500));
}

#[test]
fn memory_zero_total_fails() {
    let m = MemCounters { total: 0, free: 0, buffers: 0, cache: 0 };
    assert_eq!(mem_usage_bp(&m), Err(TopError::EmptyError));
}

#[test]
fn disk_zero_total_is_zero_percent() {
    let d = DiskInfo { name: String::from("none"), all_space: 0, available_space: 0 };
    assert_eq!(d.usage_percent(), 0);
}

#[test]
fn disk_usage_exact() {
    let d = DiskInfo { name: String::from("root"), all_space: 1000, available_space: 250 };
    assert_eq!(d.usage_percent(), 75);
    let rows = disk_usage_list(&vec![d]);
    assert_eq!(rows.len(), 1);
    assert_eq!(rows[0].0, "root");
    assert_eq!(rows[0].1, 75);
}

#[test]
fn history_keeps_only_latest_fifty() {
    let mut h = HistoryBuffer::new();
    for v in 0..60u64 {
        h.push(v);
    }
    assert_eq!(h.len(), 50);
    assert_eq!(h.index(0), 10);
    assert_eq!(h.index(49), 59);
    let all = h.to_vec();
    for (i, v) in all.iter().enumerate() {
        assert_eq!(*v, (i + 10) as u64);
    }
}

#[test]
fn first_tick_reports_no_delta() {
    let mut info = Info::new();
    let report = info.tick(snapshot_with_cpu(vec![ticks(100, 0, 0, 900, 0)]));
    assert_eq!(report.cpu, Err(TopError::EmptyError));
    // memory was absent in the snapshot
    assert_eq!(report.memory, Err(TopError::MissingDependentData));
    assert_eq!(info.cpu_info.usage_history.len(), 0);
}

#[test]
fn second_tick_computes_usage_and_pushes_history() {
    let mut info = Info::new();
    let _ = info.tick(snapshot_with_cpu(vec![ticks(100, 0, 0, 900, 0)]));
    let mut snap = snapshot_with_cpu(vec![ticks(150, 0, 0, 950, 50)]);
    snap.memory = Some(MemCounters { total: 100, free: 20, buffers: 3, cache: 2 });
    let report = info.tick(snap);
    assert_eq!(report.cpu, Ok(3333));
    assert_eq!(report.memory, Ok(7500));
    assert_eq!(info.cpu_info.usage_history.to_vec(), vec![3333]);
    assert_eq!(info.mem_info.usage_history.to_vec(), vec![7500]);
    assert_eq!(info.mem_info.total_bytes, 100);
    assert_eq!(info.mem_info.used_bytes, 75);
    // index 0 is the aggregate, index 1 the single core
    assert_eq!(info.cpu_info.usage_bp, vec![Some(3333), Some(3333)]);
}

#[test]
fn failed_metric_leaves_history_untouched() {
    let mut info = Info::new();
    let core = ticks(100, 0, 0, 900, 0);
    let _ = info.tick(snapshot_with_cpu(vec![core]));
    // the same counters again: no delta, so no history entry
    let report = info.tick(snapshot_with_cpu(vec![core]));
    assert_eq!(report.cpu, Err(TopError::EmptyError));
    assert_eq!(info.cpu_info.usage_history.len(), 0);
}

#[test]
fn per_core_failures_are_independent() {
    let mut info = Info::new();
    let stuck = ticks(5, 0, 0, 5, 0);
    let _ = info.tick(snapshot_with_cpu(vec![ticks(100, 0, 0, 900, 0), stuck]));
    let report = info.tick(snapshot_with_cpu(vec![ticks(150, 0, 0, 950, 50), stuck]));
    assert_eq!(report.cpu, Ok(3333));
    assert_eq!(info.cpu_info.usage_bp, vec![Some(3333), Some(3333), None]);
}

#[test]
fn absent_cpu_is_a_missing_dependency() {
    let mut info = Info::new();
    let snap = CounterSnapshot {
        cpu: None,
        memory: None,
        disks: Vec::new(),
        temp_millic: None,
        power_milliwatt: None,
    };
    let report = info.tick(snap);
    assert_eq!(report.cpu, Err(TopError::MissingDependentData));
}

#[test]
fn tick_stores_single_value_readings() {
    let mut info = Info::new();
    let snap = CounterSnapshot {
        cpu: None,
        memory: None,
        disks: vec![DiskInfo { name: String::from("root"), all_space: 10, available_space: 5 }],
        temp_millic: Some(47000),
        power_milliwatt: Some(7123),
    };
    let _ = info.tick(snap);
    assert_eq!(info.cpu_info.temp_millic, Some(47000));
    assert_eq!(info.cpu_info.power_milliwatt, Some(7123));
    assert_eq!(info.disks.len(), 1);
    assert_eq!(info.disks[0].name, "root");
}
