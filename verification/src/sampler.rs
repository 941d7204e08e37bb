//! The sampling loop as a machine: each look at the process is an event, and
//! the machine answers with what to do next.

use vstd::prelude::*;
use crate::record::{header_line, header_row, sample_line, sample_row, Sample};
use crate::table::{lemma_table_of_nothing, lemma_table_push, table};

verus! {

/// Whether the loop goes on.
#[derive(Clone, Copy, Debug, PartialEq, Eq)]
pub enum Phase {
    /// The process was there at the last look, or has not been looked at yet.
    Running,
    /// The process was not found; nothing more is recorded.
    Terminated,
}

/// What one look at the process found.
#[derive(Clone, Copy, Debug, PartialEq, Eq)]
pub enum Probe {
    /// The process is not there.
    Gone,
    /// The process is there, with these sizes.
    Alive(Sample),
    /// The process is listed, but its sizes could not be read.
    Unreadable,
}

/// What the caller does after a look at the process.
#[derive(Debug, PartialEq, Eq)]
pub enum Action {
    /// End the loop.
    Stop,
    /// Write `row` to the table and flush it, wait `pause_ms` milliseconds,
    /// then look again.
    Record { row: Vec<u8>, pause_ms: u64 },
    /// Look again at once.
    Retry,
}

/// What an [`Action`] stands for.
pub enum Effect {
    Stop,
    Record { line: Seq<u8>, pause_ms: u64 },
    Retry,
}

impl View for Action {
    type V = Effect;

    open spec fn view(&self) -> Effect {
        match self {
            Action::Stop => Effect::Stop,
            Action::Record { row, pause_ms } => Effect::Record { line: row@, pause_ms: *pause_ms },
            Action::Retry => Effect::Retry,
        }
    }
}

impl Effect {
    /// The bytes that the effect adds to the table.
    pub open spec fn written(self) -> Seq<u8> {
        match self {
            Effect::Record { line, .. } => line,
            _ => Seq::empty(),
        }
    }
}

/// The state of a sampling loop.
pub struct State {
    /// The time between two samples, in milliseconds.
    pub interval_ms: u64,
    /// Whether the loop goes on.
    pub phase: Phase,
    /// The samples recorded so far, oldest first.
    pub recorded: Seq<Sample>,
}

impl State {
    /// The state in which a loop starts.
    pub open spec fn initial(interval_ms: u64) -> State {
        State { interval_ms, phase: Phase::Running, recorded: Seq::empty() }
    }

    /// The state after a look at the process. A running loop records the
    /// sizes that were found, and ends where the process is gone; in every
    /// other case the state stays as it is.
    pub open spec fn next(self, probe: Probe) -> State {
        match (self.phase, probe) {
            (Phase::Running, Probe::Alive(sample)) => State {
                recorded: self.recorded.push(sample),
                ..self
            },
            (Phase::Running, Probe::Gone) => State { phase: Phase::Terminated, ..self },
            _ => self,
        }
    }

    /// What the caller is told to do after a look at the process: a running
    /// loop has the line of the sizes written and then waits for its
    /// interval, or looks again at once where the sizes could not be read;
    /// where the process is gone, and ever after, the caller stops.
    pub open spec fn effect(self, probe: Probe) -> Effect {
        match (self.phase, probe) {
            (Phase::Running, Probe::Alive(sample)) => Effect::Record {
                line: sample_line(sample),
                pause_ms: self.interval_ms,
            },
            (Phase::Running, Probe::Unreadable) => Effect::Retry,
            _ => Effect::Stop,
        }
    }

    /// All that has been written to the table in this state.
    pub open spec fn output(self) -> Seq<u8> {
        table(self.recorded)
    }

    /// The state after a series of looks at the process, the first look first.
    pub open spec fn run(self, probes: Seq<Probe>) -> State
        decreases probes.len(),
    {
        if probes.len() == 0 {
            self
        } else {
            self.run(probes.drop_last()).next(probes.last())
        }
    }
}

/// A sampling loop: it is told what each look at the process found, and says
/// what to write and how long to wait.
pub struct Sampler {
    interval_ms: u64,
    phase: Phase,
    recorded: Ghost<Seq<Sample>>,
}

impl View for Sampler {
    type V = State;

    closed spec fn view(&self) -> State {
        State { interval_ms: self.interval_ms, phase: self.phase, recorded: self.recorded@ }
    }
}

impl Sampler {
    /// Starts a loop that waits `interval_ms` milliseconds after each sample.
    /// The second result is the line of column names, which the caller writes
    /// and flushes before the first look at the process.
    pub fn start(interval_ms: u64) -> (out: (Sampler, Vec<u8>))
        ensures
            out.0@ == State::initial(interval_ms),
            out.1@ == header_line(),
            out.0@.output() == out.1@,
    {
        proof {
            lemma_table_of_nothing();
        }
        let sampler = Sampler { interval_ms, phase: Phase::Running, recorded: Ghost(Seq::empty()) };
        (sampler, header_row())
    }

    /// Takes in what a look at the process found, and says what to do next.
    pub fn step(&mut self, probe: Probe) -> (action: Action)
        ensures
            final(self)@ == old(self)@.next(probe),
            action@ == old(self)@.effect(probe),
            final(self)@.output() == old(self)@.output() + action@.written(),
    {
        proof {
            lemma_step_appends(self@, probe);
        }
        match self.phase {
            Phase::Terminated => Action::Stop,
            Phase::Running => match probe {
                Probe::Gone => {
                    self.phase = Phase::Terminated;
                    Action::Stop
                },
                Probe::Alive(sample) => {
                    self.recorded = Ghost(self.recorded@.push(sample));
                    Action::Record { row: sample_row(sample), pause_ms: self.interval_ms }
                },
                Probe::Unreadable => Action::Retry,
            },
        }
    }

    /// Whether the loop goes on.
    pub fn is_running(&self) -> (running: bool)
        ensures
            running == (self@.phase == Phase::Running),
    {
        match self.phase {
            Phase::Running => true,
            Phase::Terminated => false,
        }
    }

    /// The time between two samples, in milliseconds.
    pub fn interval_ms(&self) -> (ms: u64)
        ensures
            ms == self@.interval_ms,
    {
        self.interval_ms
    }
}

/// A step only ever appends to the table: what was written stays as it was,
/// and the line that the caller is told to write, if any, comes last. The
/// interval never changes.
pub proof fn lemma_step_appends(state: State, probe: Probe)
    ensures
        state.next(probe).output() == state.output() + state.effect(probe).written(),
        state.next(probe).interval_ms == state.interval_ms,
{
    match (state.phase, probe) {
        (Phase::Running, Probe::Alive(sample)) => {
            lemma_table_push(state.recorded, sample);
        },
        _ => {
            assert(state.output() + Seq::<u8>::empty() =~= state.output());
        },
    }
}

/// A loop that has ended stays ended: whatever is found later, nothing is
/// recorded and the caller is told to stop.
pub proof fn lemma_terminated_is_final(state: State, probes: Seq<Probe>)
    requires
        state.phase == Phase::Terminated,
    ensures
        state.run(probes) == state,
        forall|probe: Probe| #[trigger] state.effect(probe) == Effect::Stop,
    decreases probes.len(),
{
    if probes.len() > 0 {
        lemma_terminated_is_final(state, probes.drop_last());
    }
}

/// Over any series of looks the table only grows: the samples recorded before
/// are the first of those recorded after, in the same order, and the bytes
/// written before are the beginning of those written after.
pub proof fn lemma_run_extends(state: State, probes: Seq<Probe>)
    ensures
        state.recorded.is_prefix_of(state.run(probes).recorded),
        state.recorded.len() <= state.run(probes).recorded.len(),
        state.output().is_prefix_of(state.run(probes).output()),
        state.run(probes).interval_ms == state.interval_ms,
    decreases probes.len(),
{
    if probes.len() > 0 {
        let before = state.run(probes.drop_last());
        let after = before.next(probes.last());
        lemma_run_extends(state, probes.drop_last());
        lemma_step_appends(before, probes.last());
        assert(before.recorded.is_prefix_of(after.recorded));
        assert(before.output().is_prefix_of(after.output()));
    }
}

/// The sizes that a series of looks found, in the order of the looks.
pub open spec fn samples_found(probes: Seq<Probe>) -> Seq<Sample> {
    probes.filter_map(
        |probe: Probe|
            match probe {
                Probe::Alive(sample) => Some(sample),
                _ => None,
            },
    )
}

/// A fresh loop records the sizes found at each look until the process is
/// first gone, in the order of the looks, and nothing after that: where none
/// of the first `gone` looks found the process gone and the next one, if
/// there is one, did, the samples recorded are those that the first `gone`
/// looks found, and the loop has ended unless there was no such next look.
pub proof fn lemma_run_records_until_gone(interval_ms: u64, probes: Seq<Probe>, gone: int)
    requires
        0 <= gone <= probes.len(),
        forall|i: int| 0 <= i < gone ==> !(#[trigger] probes[i] is Gone),
        gone < probes.len() ==> probes[gone] is Gone,
    ensures
        State::initial(interval_ms).run(probes).recorded == samples_found(probes.take(gone)),
        State::initial(interval_ms).run(probes).phase == if gone == probes.len() {
            Phase::Running
        } else {
            Phase::Terminated
        },
    decreases probes.len(),
{
    if probes.len() == 0 {
        assert(probes.take(gone) =~= probes);
    } else if gone == probes.len() {
        // No look found the process gone: the last one adds its sizes, if it has any.
        let earlier = probes.drop_last();
        lemma_run_records_until_gone(interval_ms, earlier, gone - 1);
        assert(earlier.take(gone - 1) =~= earlier);
        assert(probes.take(gone) =~= probes);
        if let Probe::Alive(sample) = probes.last() {
            assert(samples_found(probes) =~= samples_found(earlier).push(sample));
        }
    } else {
        // The last look is the one that found the process gone, or comes after it.
        let earlier = probes.drop_last();
        lemma_run_records_until_gone(interval_ms, earlier, gone);
        assert(earlier.take(gone) =~= probes.take(gone));
    }
}

/// Where the process is not there at the first look, the table is the line
/// of column names and nothing else, whatever is found later.
pub proof fn lemma_gone_at_start(interval_ms: u64, probes: Seq<Probe>)
    requires
        probes.len() >= 1,
        probes[0] is Gone,
    ensures
        State::initial(interval_ms).run(probes).output() == header_line(),
        State::initial(interval_ms).run(probes).phase == Phase::Terminated,
{
    lemma_run_records_until_gone(interval_ms, probes, 0);
    assert(probes.take(0) =~= Seq::<Probe>::empty());
    lemma_table_of_nothing();
}

} // verus!
