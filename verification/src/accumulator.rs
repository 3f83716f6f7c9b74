//! The running totals of a run: the XOR of all outputs folded in so far, and
//! how many tasks of each kind were counted.

use crate::task::TaskType;
use vstd::prelude::*;

verus! {

/// What can go wrong while a run is driven.
#[derive(Copy, Clone, Debug, PartialEq, Eq, Structural)]
pub enum RunError {
    /// A completion was reported while no task was in flight, though tasks
    /// were still pending.
    NotInFlight,
    /// A completion was reported after the run was complete.
    AlreadyComplete,
    /// A counter is at its maximum and cannot take one more task.
    CounterOverflow,
}

/// The totals of a run: aggregate and the count of each kind.
#[derive(Copy, Clone, Debug, PartialEq, Eq, Structural)]
pub struct Report {
    /// XOR of the outputs of all tasks folded in.
    pub aggregate: u64,
    /// Number of `Hash` tasks counted.
    pub hash_count: usize,
    /// Number of `Derive` tasks counted.
    pub derive_count: usize,
    /// Number of `Random` tasks counted.
    pub random_count: usize,
}

impl Report {
    /// The totals before anything was folded in or counted.
    pub open spec fn empty() -> Report {
        Report { aggregate: 0, hash_count: 0, derive_count: 0, random_count: 0 }
    }

    /// The count of `kind`.
    pub open spec fn count(self, kind: TaskType) -> usize {
        match kind {
            TaskType::Hash => self.hash_count,
            TaskType::Derive => self.derive_count,
            TaskType::Random => self.random_count,
        }
    }

    /// These totals with `output` folded into the aggregate.
    pub open spec fn folded(self, output: u64) -> Report {
        Report { aggregate: self.aggregate ^ output, ..self }
    }

    /// These totals with one more task of `kind`, where the count has room.
    pub open spec fn tallied(self, kind: TaskType) -> Report
        recommends
            self.count(kind) < usize::MAX,
    {
        match kind {
            TaskType::Hash => Report { hash_count: (self.hash_count + 1) as usize, ..self },
            TaskType::Derive => Report { derive_count: (self.derive_count + 1) as usize, ..self },
            TaskType::Random => Report { random_count: (self.random_count + 1) as usize, ..self },
        }
    }

    /// The count of `kind`.
    pub fn count_of(&self, kind: TaskType) -> (count: usize)
        ensures
            count == self.count(kind),
    {
        match kind {
            TaskType::Hash => self.hash_count,
            TaskType::Derive => self.derive_count,
            TaskType::Random => self.random_count,
        }
    }
}

/// Collects the outputs and the kinds of the tasks of a run.
pub struct Accumulator {
    totals: Report,
}

impl View for Accumulator {
    type V = Report;

    closed spec fn view(&self) -> Report {
        self.totals
    }
}

impl Accumulator {
    /// An accumulator with nothing folded in and nothing counted.
    pub fn new() -> (acc: Accumulator)
        ensures
            acc@ == Report::empty(),
    {
        Accumulator { totals: Report { aggregate: 0, hash_count: 0, derive_count: 0, random_count: 0 } }
    }

    /// An accumulator that goes on from `totals`.
    pub fn with_totals(totals: Report) -> (acc: Accumulator)
        ensures
            acc@ == totals,
    {
        Accumulator { totals }
    }

    /// Folds `output` into the aggregate by XOR. The counts stay.
    pub fn fold(&mut self, output: u64)
        ensures
            final(self)@ == old(self)@.folded(output),
    {
        self.totals.aggregate = self.totals.aggregate ^ output;
    }

    /// Whether the count of `kind` can take one more task.
    pub fn has_room(&self, kind: TaskType) -> (room: bool)
        ensures
            room == (self@.count(kind) < usize::MAX),
    {
        self.totals.count_of(kind) < usize::MAX
    }

    /// Counts one more task of `kind`. Fails, and changes nothing, exactly
    /// where that count is at its maximum already.
    pub fn tally(&mut self, kind: TaskType) -> (result: Result<(), RunError>)
        ensures
            match result {
                Ok(()) => old(self)@.count(kind) < usize::MAX && final(self)@ == old(self)@.tallied(
                    kind,
                ),
                Err(error) => error == RunError::CounterOverflow && old(self)@.count(kind)
                    == usize::MAX && final(self)@ == old(self)@,
            },
    {
        if !self.has_room(kind) {
            return Err(RunError::CounterOverflow);
        }
        match kind {
            TaskType::Hash => {
                self.totals.hash_count = self.totals.hash_count + 1;
            },
            TaskType::Derive => {
                self.totals.derive_count = self.totals.derive_count + 1;
            },
            TaskType::Random => {
                self.totals.random_count = self.totals.random_count + 1;
            },
        }
        Ok(())
    }

    /// The totals as they stand.
    pub fn snapshot(&self) -> (report: Report)
        ensures
            report == self@,
    {
        self.totals
    }
}

} // verus!
