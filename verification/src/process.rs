//! One reading of the host: its processes and its overall load.
//!
//! Loads are fixed-point numbers. A CPU load counts millionths of a percent,
//! so `12_500_000` stands for 12.5 %; a memory size counts bytes, which are
//! millionths of a megabyte. Both therefore share one decimal rendering.

use vstd::prelude::*;

verus! {

/// How many millionths make one unit: one percent of CPU load, or one
/// megabyte of memory.
pub const MILLIONTHS_PER_UNIT: u64 = 1_000_000;

/// What was read of one process.
#[derive(Debug, PartialEq, Eq)]
pub struct ProcessRecord {
    /// The handle by which the operating system knows the process.
    pub process_id: u32,
    /// The name of the process as the operating system reports it.
    pub name: String,
    /// CPU load summed over all cores, in millionths of a percent; above
    /// one hundred percent when the process keeps several cores busy.
    pub raw_cpu: u64,
    /// Memory in use, in bytes.
    pub memory_bytes: u64,
}

/// The mathematical content of a [`ProcessRecord`].
pub struct ProcessRecordView {
    pub process_id: u32,
    pub name: Seq<char>,
    pub raw_cpu: u64,
    pub memory_bytes: u64,
}

impl View for ProcessRecord {
    type V = ProcessRecordView;

    open spec fn view(&self) -> ProcessRecordView {
        ProcessRecordView {
            process_id: self.process_id,
            name: self.name@,
            raw_cpu: self.raw_cpu,
            memory_bytes: self.memory_bytes,
        }
    }
}

impl Clone for ProcessRecord {
    fn clone(&self) -> (copy: Self)
        ensures
            copy == *self,
    {
        ProcessRecord {
            process_id: self.process_id,
            name: self.name.clone(),
            raw_cpu: self.raw_cpu,
            memory_bytes: self.memory_bytes,
        }
    }
}

/// The views of a run of records, in the same order.
pub open spec fn record_views(records: Seq<ProcessRecord>) -> Seq<ProcessRecordView> {
    records.map_values(|record: ProcessRecord| record@)
}

/// One consistent reading of the host at a point in time.
///
/// A reading is made whole and replaced whole: nothing in this library
/// changes one after it was assembled.
#[derive(Debug, PartialEq, Eq)]
pub struct Snapshot {
    /// When the reading was taken, in seconds since the Unix epoch.
    pub timestamp: u64,
    /// CPU load of the whole host, in millionths of a percent.
    pub global_cpu: u64,
    /// Memory in use on the whole host, in bytes.
    pub global_memory_bytes: u64,
    /// The processes that could be read, in the order in which they were
    /// read.
    pub processes: Vec<ProcessRecord>,
}

/// The mathematical content of a [`Snapshot`].
pub struct SnapshotView {
    pub timestamp: u64,
    pub global_cpu: u64,
    pub global_memory_bytes: u64,
    pub processes: Seq<ProcessRecordView>,
}

impl View for Snapshot {
    type V = SnapshotView;

    open spec fn view(&self) -> SnapshotView {
        SnapshotView {
            timestamp: self.timestamp,
            global_cpu: self.global_cpu,
            global_memory_bytes: self.global_memory_bytes,
            processes: record_views(self.processes@),
        }
    }
}

/// What reading one process gave: its record, or nothing if the process was
/// gone by the time it was read.
pub open spec fn reading_view(reading: Option<ProcessRecord>) -> Option<ProcessRecordView> {
    match reading {
        Some(record) => Some(record@),
        None => None,
    }
}

/// The views of a run of readings, in the same order.
pub open spec fn reading_views(readings: Seq<Option<ProcessRecord>>) -> Seq<
    Option<ProcessRecordView>,
> {
    readings.map_values(|reading: Option<ProcessRecord>| reading_view(reading))
}

/// The records among `readings`, in the same order; a process that could not
/// be read leaves no trace.
pub open spec fn readable(readings: Seq<Option<ProcessRecordView>>) -> Seq<ProcessRecordView>
    decreases readings.len(),
{
    if readings.len() == 0 {
        Seq::empty()
    } else {
        match readings.last() {
            Some(record) => readable(readings.drop_last()).push(record),
            None => readable(readings.drop_last()),
        }
    }
}

/// Whether a process with the handle `process_id` is among `records`.
pub open spec fn lists_process(records: Seq<ProcessRecordView>, process_id: u32) -> bool {
    exists|i: int| 0 <= i < records.len() && (#[trigger] records[i]).process_id == process_id
}

/// Leaving out the unreadable processes never adds a record, and where every
/// process could be read it leaves out none.
pub proof fn lemma_readable_bounds(readings: Seq<Option<ProcessRecordView>>)
    ensures
        readable(readings).len() <= readings.len(),
        (forall|i: int| 0 <= i < readings.len() ==> readings[i] is Some) ==> readable(
            readings,
        ).len() == readings.len() && forall|i: int|
            0 <= i < readings.len() ==> Some(#[trigger] readable(readings)[i]) == readings[i],
    decreases readings.len(),
{
    if readings.len() > 0 {
        lemma_readable_bounds(readings.drop_last());
    }
}

/// A record is kept if and only if its process could be read: every record
/// kept was read, and every record read is kept.
pub proof fn lemma_readable_membership(
    readings: Seq<Option<ProcessRecordView>>,
    record: ProcessRecordView,
)
    ensures
        readable(readings).contains(record) <==> readings.contains(Some(record)),
    decreases readings.len(),
{
    if readings.len() > 0 {
        let rest = readings.drop_last();
        lemma_readable_membership(rest, record);
        if readable(readings).contains(record) {
            let i = choose|i: int| 0 <= i < readable(readings).len() && readable(readings)[i]
                == record;
            if readings.last() != Some(record) {
                assert(readable(rest).contains(record));
            }
        }
        if readings.contains(Some(record)) {
            let j = choose|j: int| 0 <= j < readings.len() && readings[j] == Some(record);
            if j == readings.len() - 1 {
                assert(readable(readings)[readable(readings).len() - 1] == record);
            } else {
                assert(rest[j] == Some(record));
                let i = choose|i: int| 0 <= i < readable(rest).len() && readable(rest)[i]
                    == record;
                assert(readable(readings)[i] == record);
            }
        }
    }
}

impl Snapshot {
    /// The reading that stands before the first real one: time zero, no
    /// load, no process.
    pub fn empty() -> (snapshot: Self)
        ensures
            snapshot@ == (SnapshotView {
                timestamp: 0,
                global_cpu: 0,
                global_memory_bytes: 0,
                processes: Seq::empty(),
            }),
    {
        let snapshot = Snapshot {
            timestamp: 0,
            global_cpu: 0,
            global_memory_bytes: 0,
            processes: Vec::new(),
        };
        assert(snapshot@.processes =~= Seq::<ProcessRecordView>::empty());
        snapshot
    }

    /// Puts a reading together from what was read of the host and of each
    /// process. A process that went away between being listed and being read
    /// comes as `None` and is left out; that is no failure of the reading.
    pub fn assemble(
        timestamp: u64,
        global_cpu: u64,
        global_memory_bytes: u64,
        readings: Vec<Option<ProcessRecord>>,
    ) -> (snapshot: Self)
        ensures
            snapshot@ == (SnapshotView {
                timestamp,
                global_cpu,
                global_memory_bytes,
                processes: readable(reading_views(readings@)),
            }),
    {
        let ghost all = reading_views(readings@);
        let mut processes: Vec<ProcessRecord> = Vec::new();
        for reading in it: readings
            invariant
                all == reading_views(it.seq()),
                record_views(processes@) == readable(all.take(it.index())),
        {
            let ghost seen = it.index();
            proof {
                let next = all.take(seen + 1);
                assert(next.drop_last() =~= all.take(seen));
            }
            match reading {
                Some(record) => {
                    processes.push(record);
                },
                None => {},
            }
        }
        assert(all.take(all.len() as int) =~= all);
        Snapshot { timestamp, global_cpu, global_memory_bytes, processes }
    }

    /// Whether the reading lists a process with the handle `process_id`.
    pub fn lists(&self, process_id: u32) -> (found: bool)
        ensures
            found == lists_process(self@.processes, process_id),
    {
        let mut i: usize = 0;
        while i < self.processes.len()
            invariant
                i <= self.processes@.len(),
                forall|j: int| 0 <= j < i ==> self.processes@[j].process_id != process_id,
            decreases self.processes@.len() - i,
        {
            if self.processes[i].process_id == process_id {
                assert(self@.processes[i as int].process_id == process_id);
                return true;
            }
            i = i + 1;
        }
        false
    }
}

/// The number of logical CPUs of the host: a positive count, read once and
/// used only to divide loads by.
#[derive(Clone, Copy, Debug)]
pub struct CoreCount {
    count: u64,
}

impl View for CoreCount {
    type V = nat;

    closed spec fn view(&self) -> nat {
        self.count as nat
    }
}

impl CoreCount {
    #[verifier::type_invariant]
    spec fn positive(&self) -> bool {
        self.count > 0
    }

    /// A core count of `count`, unless `count` is zero.
    pub fn new(count: u64) -> (cores: Option<Self>)
        ensures
            count == 0 ==> cores is None,
            count > 0 ==> cores is Some && cores->0@ == count,
    {
        if count == 0 {
            None
        } else {
            Some(CoreCount { count })
        }
    }

    /// The count, which is never zero.
    pub fn get(&self) -> (count: u64)
        ensures
            count == self@,
            count > 0,
    {
        proof {
            use_type_invariant(self);
        }
        self.count
    }
}

} // verus!
