//! Ordering processes by CPU load.
//!
//! A ranking lists every process of a reading, busiest first, and gives each
//! its load per core. Processes with the same load stay in the order in which
//! the reading listed them. The order is stated over positions in the
//! reading: [`is_rank_order`] says when a sequence of positions is the
//! ranking of a sequence of loads, and [`lemma_rank_order_unique`] shows that
//! there is exactly one.

use vstd::prelude::*;
use crate::process::{
    record_views, CoreCount, ProcessRecord, ProcessRecordView, Snapshot, SnapshotView,
};

verus! {

/// A process together with its CPU load per core.
#[derive(Debug, PartialEq, Eq)]
pub struct RankedProcess {
    pub record: ProcessRecord,
    /// The raw load divided by the number of cores, in millionths of a
    /// percent, rounded down.
    pub normalized_cpu: u64,
}

/// The mathematical content of a [`RankedProcess`].
pub struct RankedProcessView {
    pub record: ProcessRecordView,
    pub normalized_cpu: u64,
}

impl View for RankedProcess {
    type V = RankedProcessView;

    open spec fn view(&self) -> RankedProcessView {
        RankedProcessView { record: self.record@, normalized_cpu: self.normalized_cpu }
    }
}

impl Clone for RankedProcess {
    fn clone(&self) -> (copy: Self)
        ensures
            copy == *self,
    {
        RankedProcess { record: self.record.clone(), normalized_cpu: self.normalized_cpu }
    }
}

/// The views of a run of ranked processes, in the same order.
pub open spec fn ranked_views(ranked: Seq<RankedProcess>) -> Seq<RankedProcessView> {
    ranked.map_values(|entry: RankedProcess| entry@)
}

/// A raw load spread over `cores` cores: the quotient, rounded down.
pub open spec fn normalized(raw_cpu: u64, cores: nat) -> u64 {
    (raw_cpu as nat / cores) as u64
}

/// The raw loads of a run of records, position by position.
pub open spec fn raw_loads(records: Seq<ProcessRecordView>) -> Seq<u64> {
    records.map_values(|record: ProcessRecordView| record.raw_cpu)
}

/// Whether the process at position `a` is listed before the one at position
/// `b`: it has the higher load, or the same load and the earlier position.
pub open spec fn outranks(loads: Seq<u64>, a: int, b: int) -> bool {
    loads[a] > loads[b] || (loads[a] == loads[b] && a < b)
}

/// Whether `order` lists the positions of `loads` from the highest load to
/// the lowest, equal loads in the order in which they came.
pub open spec fn is_rank_order(loads: Seq<u64>, order: Seq<int>) -> bool {
    &&& order.len() == loads.len()
    &&& forall|i: int| 0 <= i < order.len() ==> 0 <= #[trigger] order[i] < loads.len()
    &&& forall|i: int, j: int|
        0 <= i < j < order.len() ==> outranks(loads, #[trigger] order[i], #[trigger] order[j])
}

/// The entry that a ranking holds for `record`.
pub open spec fn ranked_entry(record: ProcessRecordView, cores: nat) -> RankedProcessView {
    RankedProcessView { record, normalized_cpu: normalized(record.raw_cpu, cores) }
}

/// The entries for `records`, taken in the order that `order` gives.
pub open spec fn entries_in_order(
    records: Seq<ProcessRecordView>,
    order: Seq<int>,
    cores: nat,
) -> Seq<RankedProcessView> {
    Seq::new(order.len(), |i: int| ranked_entry(records[order[i]], cores))
}

/// Whether `ranked` is the ranking of `records` on a host with `cores` cores.
pub open spec fn is_ranking(
    records: Seq<ProcessRecordView>,
    cores: nat,
    ranked: Seq<RankedProcessView>,
) -> bool {
    exists|order: Seq<int>|
        is_rank_order(raw_loads(records), order) && ranked == #[trigger] entries_in_order(
            records,
            order,
            cores,
        )
}

/// Of two different positions exactly one is listed before the other, and no
/// position is listed before itself.
pub proof fn lemma_outranks_is_strict_total(loads: Seq<u64>, a: int, b: int)
    ensures
        !outranks(loads, a, a),
        !(outranks(loads, a, b) && outranks(loads, b, a)),
        a != b ==> outranks(loads, a, b) || outranks(loads, b, a),
{
}

/// A rank order drops nothing and repeats nothing: every position of the
/// input appears in it, and no position appears twice.
pub proof fn lemma_rank_order_is_permutation(loads: Seq<u64>, order: Seq<int>)
    requires
        is_rank_order(loads, order),
    ensures
        order.no_duplicates(),
        forall|position: int| 0 <= position < loads.len() ==> order.contains(position),
{
    let listed = order.to_set();
    let all = vstd::set_lib::set_int_range(0, loads.len() as int);
    order.unique_seq_to_set();
    vstd::set_lib::lemma_int_range(0, loads.len() as int);
    vstd::set_lib::lemma_len_subset(listed, all);
    vstd::set_lib::lemma_subset_equality(listed, all);
    assert forall|position: int| 0 <= position < loads.len() implies order.contains(
        position,
    ) by {
        assert(listed.contains(position));
    }
}

/// Two rank orders of the same loads agree on their first `upto` places.
proof fn lemma_rank_orders_agree(loads: Seq<u64>, first: Seq<int>, second: Seq<int>, upto: int)
    requires
        is_rank_order(loads, first),
        is_rank_order(loads, second),
        0 <= upto <= loads.len(),
    ensures
        forall|i: int| 0 <= i < upto ==> first[i] == second[i],
    decreases upto,
{
    if upto > 0 {
        lemma_rank_orders_agree(loads, first, second, upto - 1);
        let place = upto - 1;
        let a = first[place];
        let b = second[place];
        if a != b {
            lemma_rank_order_is_permutation(loads, first);
            lemma_rank_order_is_permutation(loads, second);
            if outranks(loads, a, b) {
                assert(second.contains(a));
            } else {
                assert(first.contains(b));
            }
        }
    }
}

/// A sequence of loads has at most one rank order.
pub proof fn lemma_rank_order_unique(loads: Seq<u64>, first: Seq<int>, second: Seq<int>)
    requires
        is_rank_order(loads, first),
        is_rank_order(loads, second),
    ensures
        first == second,
{
    lemma_rank_orders_agree(loads, first, second, loads.len() as int);
}

/// A reading has at most one ranking: the contract of [`rank`] leaves no
/// choice to the implementation.
pub proof fn lemma_ranking_unique(
    records: Seq<ProcessRecordView>,
    cores: nat,
    first: Seq<RankedProcessView>,
    second: Seq<RankedProcessView>,
)
    requires
        is_ranking(records, cores, first),
        is_ranking(records, cores, second),
    ensures
        first == second,
{
    let loads = raw_loads(records);
    let a = choose|order: Seq<int>|
        is_rank_order(loads, order) && first == #[trigger] entries_in_order(records, order, cores);
    let b = choose|order: Seq<int>|
        is_rank_order(loads, order) && second == #[trigger] entries_in_order(
            records,
            order,
            cores,
        );
    lemma_rank_order_unique(loads, a, b);
}

/// A ranking keeps every process of the reading: it is as long as the
/// reading, and each record of the reading stands in it with its load per
/// core.
pub proof fn lemma_ranking_is_complete(
    records: Seq<ProcessRecordView>,
    cores: nat,
    ranked: Seq<RankedProcessView>,
)
    requires
        is_ranking(records, cores, ranked),
    ensures
        ranked.len() == records.len(),
        forall|position: int|
            0 <= position < records.len() ==> ranked.contains(
                ranked_entry(#[trigger] records[position], cores),
            ),
{
    let loads = raw_loads(records);
    let order = choose|order: Seq<int>|
        is_rank_order(loads, order) && ranked == #[trigger] entries_in_order(
            records,
            order,
            cores,
        );
    lemma_rank_order_is_permutation(loads, order);
    assert forall|position: int| 0 <= position < records.len() implies ranked.contains(
        ranked_entry(#[trigger] records[position], cores),
    ) by {
        assert(order.contains(position));
        let i = choose|i: int| 0 <= i < order.len() && order[i] == position;
        assert(ranked[i] == ranked_entry(records[position], cores));
    }
}

/// Spreading loads over the cores keeps their order, and a load per core is
/// never above the raw load.
pub proof fn lemma_normalized_is_monotonic(low: u64, high: u64, cores: nat)
    requires
        low <= high,
        cores > 0,
    ensures
        normalized(low, cores) <= normalized(high, cores),
        normalized(high, cores) <= high,
        normalized(high, cores) == high as nat / cores,
{
    vstd::arithmetic::div_mod::lemma_div_is_ordered(low as int, high as int, cores as int);
    vstd::arithmetic::div_mod::lemma_div_is_ordered_by_denominator(high as int, 1, cores as int);
    vstd::arithmetic::div_mod::lemma_div_is_ordered_by_denominator(low as int, 1, cores as int);
    vstd::arithmetic::div_mod::lemma_div_pos_is_pos(high as int, cores as int);
    vstd::arithmetic::div_mod::lemma_div_pos_is_pos(low as int, cores as int);
}

/// A ranking never lists a process above a busier one, whether loads are
/// compared raw or per core.
pub proof fn lemma_ranking_is_descending(
    records: Seq<ProcessRecordView>,
    cores: nat,
    ranked: Seq<RankedProcessView>,
)
    requires
        is_ranking(records, cores, ranked),
        cores > 0,
    ensures
        forall|i: int, j: int|
            0 <= i < j < ranked.len() ==> (#[trigger] ranked[i]).record.raw_cpu
                >= (#[trigger] ranked[j]).record.raw_cpu,
        forall|i: int, j: int|
            0 <= i < j < ranked.len() ==> (#[trigger] ranked[i]).normalized_cpu
                >= (#[trigger] ranked[j]).normalized_cpu,
{
    let loads = raw_loads(records);
    let order = choose|order: Seq<int>|
        is_rank_order(loads, order) && ranked == #[trigger] entries_in_order(
            records,
            order,
            cores,
        );
    assert forall|i: int, j: int| 0 <= i < j < ranked.len() implies (#[trigger] ranked[i]).record.raw_cpu
        >= (#[trigger] ranked[j]).record.raw_cpu && ranked[i].normalized_cpu
        >= ranked[j].normalized_cpu by {
        let high = records[order[i]].raw_cpu;
        let low = records[order[j]].raw_cpu;
        lemma_normalized_is_monotonic(low, high, cores);
    }
}

/// Among processes with the same raw load, a ranking keeps the order of the
/// reading: if the record at `earlier` stands before the record at `later`
/// in the reading, its place in the rank order is the smaller one.
pub proof fn lemma_rank_order_is_stable(
    loads: Seq<u64>,
    order: Seq<int>,
    earlier: int,
    later: int,
)
    requires
        is_rank_order(loads, order),
        0 <= earlier < later < loads.len(),
        loads[earlier] == loads[later],
    ensures
        order.index_of(earlier) < order.index_of(later),
        order[order.index_of(earlier)] == earlier,
        order[order.index_of(later)] == later,
{
    lemma_rank_order_is_permutation(loads, order);
    assert(order.contains(earlier));
    assert(order.contains(later));
}

/// Positions held in a vector, as mathematical integers.
pub open spec fn positions(order: Seq<usize>) -> Seq<int> {
    order.map_values(|position: usize| position as int)
}

/// The positions of `processes` from the busiest process to the idlest;
/// processes with equal load keep their relative order.
pub fn rank_order(processes: &Vec<ProcessRecord>) -> (order: Vec<usize>)
    ensures
        is_rank_order(raw_loads(record_views(processes@)), positions(order@)),
{
    let ghost loads = raw_loads(record_views(processes@));
    let count = processes.len();
    let mut order: Vec<usize> = Vec::new();
    let mut next: usize = 0;
    while next < count
        invariant
            next <= count,
            count == processes@.len(),
            loads == raw_loads(record_views(processes@)),
            order@.len() == next,
            forall|i: int| 0 <= i < order@.len() ==> #[trigger] order@[i] < next,
            forall|i: int, j: int|
                0 <= i < j < order@.len() ==> outranks(
                    loads,
                    #[trigger] order@[i] as int,
                    #[trigger] order@[j] as int,
                ),
        decreases count - next,
    {
        let load = processes[next].raw_cpu;
        let mut slot: usize = order.len();
        while slot > 0 && processes[order[slot - 1]].raw_cpu < load
            invariant
                slot <= order@.len(),
                order@.len() == next,
                next < count,
                count == processes@.len(),
                loads == raw_loads(record_views(processes@)),
                load == loads[next as int],
                forall|i: int| 0 <= i < order@.len() ==> #[trigger] order@[i] < next,
                forall|j: int| slot <= j < order@.len() ==> loads[#[trigger] order@[j] as int] < load,
            decreases slot,
        {
            slot = slot - 1;
        }
        order.insert(slot, next);
        next = next + 1;
    }
    order
}

/// Ranks `processes` for a host with `cores` cores: every process appears
/// once, busiest first and equal loads in the order in which they came, each
/// with its load per core.
///
/// Each process is put in its place among those ranked before it. The time
/// is quadratic in the number of processes, which a host keeps in the
/// hundreds.
pub fn rank(processes: &Vec<ProcessRecord>, cores: CoreCount) -> (ranked: Vec<RankedProcess>)
    ensures
        is_ranking(record_views(processes@), cores@, ranked_views(ranked@)),
        ranked@.len() == processes@.len(),
        cores@ > 0,
{
    let ghost records = record_views(processes@);
    let divisor = cores.get();
    let order = rank_order(processes);
    let mut ranked: Vec<RankedProcess> = Vec::new();
    let mut place: usize = 0;
    while place < order.len()
        invariant
            place <= order@.len(),
            divisor == cores@,
            divisor > 0,
            records == record_views(processes@),
            is_rank_order(raw_loads(records), positions(order@)),
            ranked@.len() == place,
            forall|i: int|
                0 <= i < place ==> (#[trigger] ranked@[i])@ == ranked_entry(
                    records[positions(order@)[i]],
                    cores@,
                ),
        decreases order@.len() - place,
    {
        let position = order[place];
        assert(0 <= positions(order@)[place as int] < records.len());
        let source = &processes[position];
        let entry = RankedProcess {
            record: source.clone(),
            normalized_cpu: source.raw_cpu / divisor,
        };
        ranked.push(entry);
        place = place + 1;
    }
    proof {
        assert(ranked_views(ranked@) =~= entries_in_order(records, positions(order@), cores@));
    }
    ranked
}

/// A reading together with its ranking: what a view shows and what an export
/// writes. The ranking always belongs to the reading it stands beside.
pub struct RankedSnapshot {
    snapshot: Snapshot,
    ranked: Vec<RankedProcess>,
    cores: CoreCount,
}

/// The mathematical content of a [`RankedSnapshot`].
pub struct RankedSnapshotView {
    pub snapshot: SnapshotView,
    pub ranked: Seq<RankedProcessView>,
    pub cores: nat,
}

impl RankedSnapshotView {
    /// Whether the ranking is the ranking of the reading, for a positive
    /// number of cores.
    pub open spec fn valid(self) -> bool {
        &&& self.cores > 0
        &&& is_ranking(self.snapshot.processes, self.cores, self.ranked)
    }
}

impl View for RankedSnapshot {
    type V = RankedSnapshotView;

    closed spec fn view(&self) -> RankedSnapshotView {
        RankedSnapshotView {
            snapshot: self.snapshot@,
            ranked: ranked_views(self.ranked@),
            cores: self.cores@,
        }
    }
}

impl RankedSnapshot {
    #[verifier::type_invariant]
    spec fn ranking_matches(&self) -> bool {
        &&& self.cores@ > 0
        &&& is_ranking(self.snapshot@.processes, self.cores@, ranked_views(self.ranked@))
    }

    /// Ranks `snapshot` for a host with `cores` cores and keeps both.
    pub fn new(snapshot: Snapshot, cores: CoreCount) -> (ranked: Self)
        ensures
            ranked@.snapshot == snapshot@,
            ranked@.cores == cores@,
            ranked@.valid(),
    {
        let ranked = rank(&snapshot.processes, cores);
        RankedSnapshot { snapshot, ranked, cores }
    }

    /// The reading.
    pub fn snapshot(&self) -> (snapshot: &Snapshot)
        ensures
            snapshot@ == self@.snapshot,
    {
        &self.snapshot
    }

    /// The processes of the reading, busiest first, each with its load per
    /// core.
    pub fn ranked(&self) -> (ranked: &Vec<RankedProcess>)
        ensures
            ranked_views(ranked@) == self@.ranked,
            self@.valid(),
    {
        proof {
            use_type_invariant(self);
        }
        &self.ranked
    }

    /// The number of cores by which loads were divided.
    pub fn cores(&self) -> (cores: CoreCount)
        ensures
            cores@ == self@.cores,
    {
        self.cores
    }
}

} // verus!
