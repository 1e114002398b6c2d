//! The monitor's state and the one function that changes it.
//!
//! Whoever drives the monitor samples the host on each tick of its timer and
//! hands the reading in as an event; requests of the user come in as events
//! too. [`Controller::handle`] takes one event at a time, brings the state
//! up to date and says what is left to do outside: nothing, write the export,
//! or stop a process.

use vstd::prelude::*;
use crate::export::{export_text, render_export};
use crate::history::{appended, lemma_append_to_full, zeros, HistoryBuffer, HISTORY_CAPACITY};
use crate::process::{lists_process, CoreCount, Snapshot, SnapshotView};
use crate::rank::{
    is_ranking, lemma_ranking_is_complete, lemma_ranking_unique, RankedProcessView,
    RankedSnapshot, RankedSnapshotView,
};

verus! {

/// What happened outside.
#[derive(Debug, PartialEq, Eq)]
pub enum Event {
    /// The timer fired and the host was sampled.
    Tick(Snapshot),
    /// The user asked for an export of the current ranking.
    ExportRequested,
    /// The user asked to stop the process with this handle.
    TerminateRequested(u32),
}

/// The mathematical content of an [`Event`].
pub enum EventView {
    Tick(SnapshotView),
    ExportRequested,
    TerminateRequested(u32),
}

impl View for Event {
    type V = EventView;

    open spec fn view(&self) -> EventView {
        match self {
            Event::Tick(snapshot) => EventView::Tick(snapshot@),
            Event::ExportRequested => EventView::ExportRequested,
            Event::TerminateRequested(process_id) => EventView::TerminateRequested(*process_id),
        }
    }
}

/// What is left to do outside once an event has been handled.
#[derive(Debug, PartialEq, Eq)]
pub enum Effect {
    /// Nothing.
    Nothing,
    /// Replace the export file by this text.
    WriteExport(String),
    /// Ask the operating system to stop the process with this handle.
    Kill(u32),
}

/// The mathematical content of an [`Effect`].
pub enum EffectView {
    Nothing,
    WriteExport(Seq<char>),
    Kill(u32),
}

impl View for Effect {
    type V = EffectView;

    open spec fn view(&self) -> EffectView {
        match self {
            Effect::Nothing => EffectView::Nothing,
            Effect::WriteExport(text) => EffectView::WriteExport(text@),
            Effect::Kill(process_id) => EffectView::Kill(*process_id),
        }
    }
}

/// The mathematical content of a [`Controller`].
pub struct ControllerView {
    /// The latest reading and its ranking.
    pub current: RankedSnapshotView,
    /// Host CPU load over the last ticks, oldest first.
    pub cpu_history: Seq<u64>,
    /// Host memory in use over the last ticks, oldest first.
    pub memory_history: Seq<u64>,
}

impl ControllerView {
    /// What holds of every state: the ranking belongs to the reading, and
    /// both series are of full width.
    pub open spec fn valid(self) -> bool {
        &&& self.current.valid()
        &&& self.cpu_history.len() == HISTORY_CAPACITY
        &&& self.memory_history.len() == HISTORY_CAPACITY
    }
}

/// The state in which a monitor for `cores` cores starts: no reading yet,
/// both series zero.
pub open spec fn initial_state(cores: nat) -> ControllerView {
    ControllerView {
        current: RankedSnapshotView {
            snapshot: SnapshotView {
                timestamp: 0,
                global_cpu: 0,
                global_memory_bytes: 0,
                processes: Seq::empty(),
            },
            ranked: Seq::empty(),
            cores,
        },
        cpu_history: zeros(HISTORY_CAPACITY as nat),
        memory_history: zeros(HISTORY_CAPACITY as nat),
    }
}

/// What is left to do when the user asks to stop `process_id`: stop it if the
/// current reading lists it, nothing otherwise.
pub open spec fn termination_effect(state: ControllerView, process_id: u32) -> EffectView {
    if lists_process(state.current.snapshot.processes, process_id) {
        EffectView::Kill(process_id)
    } else {
        EffectView::Nothing
    }
}

/// Whether handling `event` in the state `before` leads to the state `after`
/// and leaves `effect` to do.
///
/// A tick replaces the reading and its ranking and appends the host's load
/// and memory to the two series. A request changes nothing: an export hands
/// out the text of the current ranking, a termination names the process to
/// stop if the current reading lists it.
pub open spec fn is_step(
    before: ControllerView,
    event: EventView,
    after: ControllerView,
    effect: EffectView,
) -> bool {
    match event {
        EventView::Tick(snapshot) => {
            &&& after.current.snapshot == snapshot
            &&& after.current.cores == before.current.cores
            &&& is_ranking(snapshot.processes, before.current.cores, after.current.ranked)
            &&& after.cpu_history == appended(
                before.cpu_history,
                HISTORY_CAPACITY as nat,
                snapshot.global_cpu,
            )
            &&& after.memory_history == appended(
                before.memory_history,
                HISTORY_CAPACITY as nat,
                snapshot.global_memory_bytes,
            )
            &&& effect == EffectView::Nothing
        },
        EventView::ExportRequested => {
            &&& after == before
            &&& effect == EffectView::WriteExport(export_text(before.current.ranked))
        },
        EventView::TerminateRequested(process_id) => {
            &&& after == before
            &&& effect == termination_effect(before, process_id)
        },
    }
}

/// The state that follows and the effect are fixed by the state and the
/// event: handling the same event in the same state twice gives the same.
pub proof fn lemma_step_is_deterministic(
    before: ControllerView,
    event: EventView,
    first: (ControllerView, EffectView),
    second: (ControllerView, EffectView),
)
    requires
        is_step(before, event, first.0, first.1),
        is_step(before, event, second.0, second.1),
    ensures
        first == second,
{
    match event {
        EventView::Tick(snapshot) => {
            lemma_ranking_unique(
                snapshot.processes,
                before.current.cores,
                first.0.current.ranked,
                second.0.current.ranked,
            );
        },
        _ => {},
    }
}

/// Every step keeps a valid state valid: the ranking still belongs to the
/// reading, and neither series changes its width.
pub proof fn lemma_step_keeps_valid(
    before: ControllerView,
    event: EventView,
    after: ControllerView,
    effect: EffectView,
)
    requires
        before.valid(),
        is_step(before, event, after, effect),
    ensures
        after.valid(),
{
}

/// A request to stop a process that the current reading does not list does
/// nothing: no effect is left to do, and the reading, its ranking and both
/// series stay as they are.
pub proof fn lemma_terminating_unlisted_changes_nothing(
    before: ControllerView,
    process_id: u32,
    after: ControllerView,
    effect: EffectView,
)
    requires
        is_step(before, EventView::TerminateRequested(process_id), after, effect),
        !lists_process(before.current.snapshot.processes, process_id),
    ensures
        effect == EffectView::Nothing,
        after == before,
{
}

/// An export or a termination request, whatever its outcome outside, leaves
/// the state as it is.
pub proof fn lemma_requests_change_nothing(
    before: ControllerView,
    event: EventView,
    after: ControllerView,
    effect: EffectView,
)
    requires
        is_step(before, event, after, effect),
        !(event is Tick),
    ensures
        after == before,
{
}

/// A tick on a valid state moves both series on by one sample: the oldest
/// leaves, the others move up, and the host's new load and memory stand last.
pub proof fn lemma_tick_rolls_histories(
    before: ControllerView,
    snapshot: SnapshotView,
    after: ControllerView,
    effect: EffectView,
)
    requires
        before.valid(),
        is_step(before, EventView::Tick(snapshot), after, effect),
    ensures
        after.cpu_history == before.cpu_history.skip(1).push(snapshot.global_cpu),
        after.memory_history == before.memory_history.skip(1).push(snapshot.global_memory_bytes),
{
    lemma_append_to_full(before.cpu_history, HISTORY_CAPACITY as nat, snapshot.global_cpu);
    lemma_append_to_full(
        before.memory_history,
        HISTORY_CAPACITY as nat,
        snapshot.global_memory_bytes,
    );
}

/// The state of a monitor: the latest reading with its ranking, and the two
/// trend series.
pub struct Controller {
    current: RankedSnapshot,
    cpu_history: HistoryBuffer,
    memory_history: HistoryBuffer,
}

impl View for Controller {
    type V = ControllerView;

    closed spec fn view(&self) -> ControllerView {
        ControllerView {
            current: self.current@,
            cpu_history: self.cpu_history@,
            memory_history: self.memory_history@,
        }
    }
}

impl Controller {
    #[verifier::type_invariant]
    spec fn well_formed(&self) -> bool {
        &&& self.current@.valid()
        &&& self.cpu_history.spec_capacity() == HISTORY_CAPACITY
        &&& self.cpu_history@.len() == HISTORY_CAPACITY
        &&& self.memory_history.spec_capacity() == HISTORY_CAPACITY
        &&& self.memory_history@.len() == HISTORY_CAPACITY
    }

    /// A monitor for a host with `cores` cores, before its first tick.
    pub fn new(cores: CoreCount) -> (controller: Self)
        ensures
            controller@ == initial_state(cores@),
            controller@.valid(),
    {
        let current = RankedSnapshot::new(Snapshot::empty(), cores);
        proof {
            lemma_ranking_is_complete(
                current@.snapshot.processes,
                current@.cores,
                current@.ranked,
            );
            assert(current@.ranked =~= Seq::<RankedProcessView>::empty());
        }
        Controller {
            current,
            cpu_history: HistoryBuffer::new(),
            memory_history: HistoryBuffer::new(),
        }
    }

    /// Handles one event: brings the state up to date and returns what is
    /// left to do outside.
    pub fn handle(&mut self, event: Event) -> (effect: Effect)
        ensures
            is_step(old(self)@, event@, final(self)@, effect@),
            old(self)@.valid(),
            final(self)@.valid(),
    {
        match event {
            Event::Tick(snapshot) => {
                self.tick(snapshot);
                Effect::Nothing
            },
            Event::ExportRequested => {
                proof {
                    use_type_invariant(&*self);
                }
                Effect::WriteExport(self.export())
            },
            Event::TerminateRequested(process_id) => {
                proof {
                    use_type_invariant(&*self);
                }
                self.terminate(process_id)
            },
        }
    }

    /// Takes in the reading of a tick: it becomes the current reading and is
    /// ranked, and the host's load and memory go to the end of their series.
    pub fn tick(&mut self, snapshot: Snapshot)
        ensures
            is_step(old(self)@, EventView::Tick(snapshot@), final(self)@, EffectView::Nothing),
            old(self)@.valid(),
            final(self)@.valid(),
    {
        proof {
            use_type_invariant(&*self);
        }
        let cores = self.current.cores();
        let global_cpu = snapshot.global_cpu;
        let global_memory_bytes = snapshot.global_memory_bytes;
        // The ranking is made before anything is changed, and the appends
        // cannot fail: a tick is taken in whole or not at all.
        let current = RankedSnapshot::new(snapshot, cores);
        self.current = current;
        self.cpu_history.append(global_cpu);
        self.memory_history.append(global_memory_bytes);
    }

    /// The text of an export of the current ranking.
    pub fn export(&self) -> (text: String)
        ensures
            text@ == export_text(self@.current.ranked),
    {
        render_export(self.current.ranked())
    }

    /// What a request to stop `process_id` comes to: the process is to be
    /// stopped if the current reading lists it, and nothing is to be done
    /// otherwise. The state stays as it is either way.
    pub fn terminate(&self, process_id: u32) -> (effect: Effect)
        ensures
            effect@ == termination_effect(self@, process_id),
    {
        if self.current.snapshot().lists(process_id) {
            Effect::Kill(process_id)
        } else {
            Effect::Nothing
        }
    }

    /// The latest reading and its ranking.
    pub fn current(&self) -> (current: &RankedSnapshot)
        ensures
            current@ == self@.current,
            self@.valid(),
    {
        proof {
            use_type_invariant(self);
        }
        &self.current
    }

    /// Host CPU load over the last ticks, in millionths of a percent.
    pub fn cpu_history(&self) -> (history: &HistoryBuffer)
        ensures
            history@ == self@.cpu_history,
            history@.len() == HISTORY_CAPACITY,
    {
        proof {
            use_type_invariant(self);
        }
        &self.cpu_history
    }

    /// Host memory in use over the last ticks, in bytes.
    pub fn memory_history(&self) -> (history: &HistoryBuffer)
        ensures
            history@ == self@.memory_history,
            history@.len() == HISTORY_CAPACITY,
    {
        proof {
            use_type_invariant(self);
        }
        &self.memory_history
    }
}

} // verus!
