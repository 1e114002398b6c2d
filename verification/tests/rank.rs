use system_monitor::process::{CoreCount, ProcessRecord, Snapshot};
use system_monitor::rank::{rank, rank_order, RankedSnapshot};

fn record(process_id: u32, name: &str, raw_cpu: u64) -> ProcessRecord {
    ProcessRecord { process_id, name: String::from(name), raw_cpu, memory_bytes: 1_000_000 * process_id as u64 }
}

fn cores(count: u64) -> CoreCount {
    CoreCount::new(count).unwrap()
}

#[test]
fn normalization_divides_by_core_count() {
    let ranked = rank(&vec![record(1, "busy", 200_000_000)], cores(4));
    assert_eq!(ranked.len(), 1);
    assert_eq!(ranked[0].normalized_cpu, 50_000_000);
    assert_eq!(ranked[0].normalized_cpu as f64 / 1_000_000.0, 50.0);
    assert_eq!(ranked[0].record, record(1, "busy", 200_000_000));
}

#[test]
fn normalization_rounds_down() {
    let ranked = rank(&vec![record(1, "a", 100_000_000), record(2, "b", 7)], cores(3));
    assert_eq!(ranked[0].normalized_cpu, 33_333_333);
    assert_eq!(ranked[1].normalized_cpu, 2);
}

#[test]
fn single_core_leaves_load_as_it_is() {
    let ranked = rank(&vec![record(1, "a", 87_654_321)], cores(1));
    assert_eq!(ranked[0].normalized_cpu, 87_654_321);
}

#[test]
fn ranking_is_stable_for_equal_loads() {
    let processes = vec![
        record(1, "ten", 10_000_000),
        record(2, "fifty first", 50_000_000),
        record(3, "fifty second", 50_000_000),
        record(4, "five", 5_000_000),
    ];
    let ranked = rank(&processes, cores(1));
    let ids: Vec<u32> = ranked.iter().map(|entry| entry.record.process_id).collect();
    assert_eq!(ids, vec![2, 3, 1, 4]);
    let names: Vec<&str> = ranked.iter().map(|entry| entry.record.name.as_str()).collect();
    assert_eq!(names, vec!["fifty first", "fifty second", "ten", "five"]);
    let loads: Vec<u64> = ranked.iter().map(|entry| entry.record.raw_cpu).collect();
    assert_eq!(loads, vec![50_000_000, 50_000_000, 10_000_000, 5_000_000]);
    assert_eq!(rank_order(&processes), vec![1, 2, 0, 3]);
}

#[test]
fn all_equal_loads_keep_input_order() {
    let processes: Vec<ProcessRecord> = (0..10).map(|id| record(id, "same", 1_000_000)).collect();
    assert_eq!(rank_order(&processes), (0..10).collect::<Vec<usize>>());
}

#[test]
fn ascending_input_is_reversed() {
    let processes: Vec<ProcessRecord> = (0..6).map(|id| record(id, "p", id as u64)).collect();
    assert_eq!(rank_order(&processes), vec![5, 4, 3, 2, 1, 0]);
}

#[test]
fn empty_input_gives_empty_ranking() {
    assert_eq!(rank(&Vec::new(), cores(8)), Vec::new());
    assert_eq!(rank_order(&Vec::new()), Vec::<usize>::new());
}

#[test]
fn ranking_drops_no_entry() {
    let processes: Vec<ProcessRecord> =
        (0..250).map(|id| record(id, "p", (id as u64 * 7919) % 101)).collect();
    let ranked = rank(&processes, cores(2));
    assert_eq!(ranked.len(), 250);
    let mut ids: Vec<u32> = ranked.iter().map(|entry| entry.record.process_id).collect();
    ids.sort();
    assert_eq!(ids, (0..250).collect::<Vec<u32>>());
    for pair in ranked.windows(2) {
        assert!(pair[0].record.raw_cpu >= pair[1].record.raw_cpu);
        assert!(pair[0].normalized_cpu >= pair[1].normalized_cpu);
        if pair[0].record.raw_cpu == pair[1].record.raw_cpu {
            assert!(pair[0].record.process_id < pair[1].record.process_id);
        }
    }
    for entry in &ranked {
        assert_eq!(entry.normalized_cpu, entry.record.raw_cpu / 2);
        assert_eq!(entry.record, processes[entry.record.process_id as usize]);
    }
}

#[test]
fn ranking_agrees_with_a_stable_sort() {
    let processes: Vec<ProcessRecord> =
        (0..64).map(|id| record(id, "p", (id as u64 * 37) % 11)).collect();
    let mut expected: Vec<usize> = (0..64).collect();
    expected.sort_by(|a, b| processes[*b].raw_cpu.cmp(&processes[*a].raw_cpu));
    assert_eq!(rank_order(&processes), expected);
}

#[test]
fn ranked_snapshot_keeps_reading_and_ranking_together() {
    let snapshot = Snapshot {
        timestamp: 1_700_000_000,
        global_cpu: 30_000_000,
        global_memory_bytes: 2_000_000_000,
        processes: vec![record(7, "low", 1_000_000), record(8, "high", 9_000_000)],
    };
    let ranked = RankedSnapshot::new(snapshot, cores(2));
    assert_eq!(ranked.cores().get(), 2);
    assert_eq!(ranked.snapshot().timestamp, 1_700_000_000);
    assert_eq!(ranked.snapshot().processes.len(), 2);
    assert_eq!(ranked.snapshot().processes[0].process_id, 7);
    assert_eq!(ranked.ranked().len(), 2);
    assert_eq!(ranked.ranked()[0].record.process_id, 8);
    assert_eq!(ranked.ranked()[0].normalized_cpu, 4_500_000);
    assert_eq!(ranked.ranked()[1].record.process_id, 7);
    assert_eq!(ranked.ranked()[1].normalized_cpu, 500_000);
}
