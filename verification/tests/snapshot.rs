use system_monitor::process::{CoreCount, ProcessRecord, Snapshot, MILLIONTHS_PER_UNIT};

fn record(process_id: u32, name: &str) -> ProcessRecord {
    ProcessRecord { process_id, name: String::from(name), raw_cpu: 5, memory_bytes: 6 }
}

#[test]
fn core_count_must_be_positive() {
    assert!(CoreCount::new(0).is_none());
    assert_eq!(CoreCount::new(1).unwrap().get(), 1);
    assert_eq!(CoreCount::new(64).unwrap().get(), 64);
    assert_eq!(CoreCount::new(u64::MAX).unwrap().get(), u64::MAX);
}

#[test]
fn one_unit_is_a_million() {
    assert_eq!(MILLIONTHS_PER_UNIT, 1_000_000);
}

#[test]
fn empty_snapshot_has_nothing() {
    let snapshot = Snapshot::empty();
    assert_eq!(snapshot.timestamp, 0);
    assert_eq!(snapshot.global_cpu, 0);
    assert_eq!(snapshot.global_memory_bytes, 0);
    assert!(snapshot.processes.is_empty());
}

#[test]
fn assemble_keeps_readable_processes_in_order() {
    let readings = vec![
        Some(record(3, "c")),
        None,
        Some(record(1, "a")),
        None,
        None,
        Some(record(2, "b")),
    ];
    let snapshot = Snapshot::assemble(42, 1_000_000, 2_000_000, readings);
    assert_eq!(snapshot.timestamp, 42);
    assert_eq!(snapshot.global_cpu, 1_000_000);
    assert_eq!(snapshot.global_memory_bytes, 2_000_000);
    assert_eq!(snapshot.processes, vec![record(3, "c"), record(1, "a"), record(2, "b")]);
}

#[test]
fn assemble_of_unreadable_processes_is_no_failure() {
    let snapshot = Snapshot::assemble(1, 2, 3, vec![None, None]);
    assert!(snapshot.processes.is_empty());
    assert_eq!(snapshot.global_cpu, 2);
}

#[test]
fn assemble_without_gaps_keeps_everything() {
    let readings: Vec<Option<ProcessRecord>> = (0..20).map(|id| Some(record(id, "p"))).collect();
    let snapshot = Snapshot::assemble(0, 0, 0, readings);
    assert_eq!(snapshot.processes.len(), 20);
    for (position, process) in snapshot.processes.iter().enumerate() {
        assert_eq!(process.process_id as usize, position);
    }
}

#[test]
fn lists_finds_a_process_by_handle() {
    let snapshot = Snapshot::assemble(0, 0, 0, vec![Some(record(10, "x")), Some(record(20, "y"))]);
    assert!(snapshot.lists(10));
    assert!(snapshot.lists(20));
    assert!(!snapshot.lists(15));
    assert!(!Snapshot::empty().lists(10));
}

#[test]
fn clone_of_a_record_is_equal() {
    let original = record(9, "name, with comma");
    assert_eq!(original.clone(), original);
}
