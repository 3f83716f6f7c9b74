//! The scheduling engine: the frontier of a run and its running totals.
//!
//! The engine decides, it does not execute. `submit` hands out the next
//! pending task and books it as in flight; whoever drives the run executes the
//! task, on whatever worker it likes, and reports what came of it with
//! `on_complete`. The run is complete once nothing is pending and nothing is
//! in flight.
//!
//! Beside what it computes with, the engine keeps a ghost record of the
//! batch it started from, of the tasks in flight and of the tasks completed.
//! The contracts speak of that record: as long as every completion reported
//! is the outcome of a task in flight, the tasks completed, the forest of the
//! tasks in flight and the forest of the tasks pending together are exactly
//! the forest of the initial batch.

use crate::accumulator::{Accumulator, Report, RunError};
use crate::job::{outcome_of, Job};
use crate::task::TaskType;
use crate::tree::{
    count_kind, forest, lemma_count_permutation, lemma_count_push, lemma_count_remove,
    lemma_counts_cover, lemma_forest_concat, lemma_forest_holds_roots, lemma_forest_push,
    lemma_forest_remove, lemma_subtree_unfold, lemma_xor_permutation, lemma_xor_push, subtree,
    totals_of, xor_outputs,
};
use std::collections::VecDeque;
use vstd::prelude::*;
use vstd::seq_lib::{group_to_multiset_ensures, lemma_multiset_commutative};

verus! {

/// Where a run stands.
#[derive(Copy, Clone, Debug, PartialEq, Eq, Structural)]
pub enum RunState {
    /// Tasks are pending.
    Active,
    /// Nothing is pending, but tasks are in flight and may bring children.
    Draining,
    /// Nothing is pending and nothing is in flight.
    Complete,
}

/// The frontier and the totals of one run.
pub struct Scheduler<T: Job> {
    pending: VecDeque<T>,
    in_flight: u64,
    totals: Accumulator,
    origin: Ghost<Seq<T>>,
    flying: Ghost<Seq<T>>,
    completed: Ghost<Seq<T>>,
}

impl<T: Job> Scheduler<T> {
    /// The tasks not yet handed out, next one first.
    pub closed spec fn pending(&self) -> Seq<T> {
        self.pending@
    }

    /// The number of tasks handed out and not yet reported complete.
    pub closed spec fn in_flight(&self) -> u64 {
        self.in_flight
    }

    /// The totals so far.
    pub closed spec fn totals(&self) -> Report {
        self.totals@
    }

    /// The batch that the run started from.
    pub closed spec fn origin(&self) -> Seq<T> {
        self.origin@
    }

    /// The tasks handed out and not yet reported complete.
    pub closed spec fn flying(&self) -> Seq<T> {
        self.flying@
    }

    /// The tasks reported complete, in the order of the reports.
    pub closed spec fn completed(&self) -> Seq<T> {
        self.completed@
    }

    /// The books agree with each other: the counter of tasks in flight
    /// counts them, and each kind's count is the number of tasks of that kind
    /// handed out so far.
    pub open spec fn wf(&self) -> bool {
        &&& self.in_flight() == self.flying().len()
        &&& self.counts(TaskType::Hash)
        &&& self.counts(TaskType::Derive)
        &&& self.counts(TaskType::Random)
    }

    /// The count of `kind` is the number of tasks of that kind handed out so
    /// far: those completed and those in flight.
    pub open spec fn counts(&self, kind: TaskType) -> bool {
        self.totals().count(kind) == count_kind(self.completed(), kind) + count_kind(
            self.flying(),
            kind,
        )
    }

    /// Nothing was lost and nothing was added: the aggregate is the XOR of the
    /// outputs of the tasks completed, and those tasks, the forest of the
    /// tasks in flight and the forest of the tasks pending are, taken
    /// together, the forest of the initial batch.
    pub open spec fn balanced(&self) -> bool {
        &&& self.totals().aggregate == xor_outputs(self.completed())
        &&& self.completed().to_multiset().add(forest(self.flying()).to_multiset()).add(
            forest(self.pending()).to_multiset(),
        ) == forest(self.origin()).to_multiset()
    }

    /// `output` and `children` are what executing the task at `index` of the
    /// tasks in flight yields.
    pub open spec fn is_outcome(&self, index: int, output: u64, children: Seq<T>) -> bool {
        &&& 0 <= index < self.flying().len()
        &&& (output, children) == outcome_of(self.flying()[index])
    }

    /// `output` and `children` are the outcome of some task in flight.
    pub open spec fn genuine(&self, output: u64, children: Seq<T>) -> bool {
        exists|index: int| self.is_outcome(index, output, children)
    }

    /// Nothing is pending and nothing is in flight.
    pub open spec fn is_complete(&self) -> bool {
        self.pending().len() == 0 && self.in_flight() == 0
    }

    /// The number of steps that a balanced run still takes, a step being a
    /// call of `submit` that hands out a task or a genuine report of
    /// completion: one for each task in flight, two for each task that is
    /// pending or still to come.
    pub open spec fn remaining_steps(&self) -> int {
        2 * forest(self.pending()).len() + 2 * forest(self.flying()).len() - self.flying().len()
    }

    /// A run that starts from `initial`: all of it pending, nothing in flight,
    /// totals empty.
    pub fn new(initial: Vec<T>) -> (engine: Scheduler<T>)
        ensures
            engine.wf(),
            engine.balanced(),
            engine.origin() == initial@,
            engine.pending() == initial@,
            engine.flying() == Seq::<T>::empty(),
            engine.completed() == Seq::<T>::empty(),
            engine.in_flight() == 0,
            engine.totals() == Report::empty(),
            engine.remaining_steps() == 2 * forest(initial@).len(),
    {
        let pending = into_queue(initial);
        let engine = Scheduler {
            pending,
            in_flight: 0,
            totals: Accumulator::new(),
            origin: Ghost(initial@),
            flying: Ghost(Seq::empty()),
            completed: Ghost(Seq::empty()),
        };
        proof {
            broadcast use group_to_multiset_ensures;

            let none = Seq::<T>::empty();
            assert(none.to_multiset().len() == 0);
            assert(forall|task: T| none.to_multiset().count(task) == 0);
            assert(none.to_multiset().add(forest(none).to_multiset()).add(
                forest(initial@).to_multiset(),
            ) =~= forest(initial@).to_multiset());
        }
        engine
    }

    /// The number of tasks pending.
    pub fn pending_len(&self) -> (len: usize)
        ensures
            len == self.pending().len(),
    {
        self.pending.len()
    }

    /// The number of tasks in flight.
    pub fn in_flight_count(&self) -> (count: u64)
        ensures
            count == self.in_flight(),
    {
        self.in_flight
    }

    /// Whether the run is complete: nothing pending, nothing in flight.
    pub fn is_done(&self) -> (done: bool)
        ensures
            done == self.is_complete(),
    {
        self.pending.len() == 0 && self.in_flight == 0
    }

    /// Where the run stands.
    pub fn state(&self) -> (state: RunState)
        ensures
            state == RunState::Active <==> self.pending().len() > 0,
            state == RunState::Draining <==> self.pending().len() == 0 && self.in_flight() > 0,
            state == RunState::Complete <==> self.is_complete(),
    {
        if self.pending.len() > 0 {
            RunState::Active
        } else if self.in_flight > 0 {
            RunState::Draining
        } else {
            RunState::Complete
        }
    }

    /// Hands out the next pending task, if there is one: books it as in
    /// flight and counts it under its kind.
    ///
    /// Returns `Ok(None)` exactly where nothing is pending. Fails with
    /// `CounterOverflow`, and changes nothing, exactly where a task is pending
    /// but its kind's count or the counter of tasks in flight is at its
    /// maximum.
    pub fn submit(&mut self) -> (result: Result<Option<T>, RunError>)
        requires
            old(self).wf(),
        ensures
            final(self).wf(),
            final(self).origin() == old(self).origin(),
            final(self).completed() == old(self).completed(),
            old(self).balanced() ==> final(self).balanced(),
            match result {
                Ok(None) => old(self).pending().len() == 0 && *final(self) == *old(self),
                Ok(Some(task)) => {
                    &&& old(self).pending().len() > 0
                    &&& task == old(self).pending()[0]
                    &&& old(self).totals().count(task.kind()) < usize::MAX
                    &&& old(self).in_flight() < u64::MAX
                    &&& final(self).pending() == old(self).pending().drop_first()
                    &&& final(self).flying() == old(self).flying().push(task)
                    &&& final(self).in_flight() == old(self).in_flight() + 1
                    &&& final(self).totals() == old(self).totals().tallied(task.kind())
                    &&& final(self).remaining_steps() == old(self).remaining_steps() - 1
                },
                Err(error) => {
                    &&& error == RunError::CounterOverflow
                    &&& old(self).pending().len() > 0
                    &&& (old(self).totals().count(old(self).pending()[0].kind()) == usize::MAX
                        || old(self).in_flight() == u64::MAX)
                    &&& *final(self) == *old(self)
                },
            },
    {
        if self.pending.len() == 0 {
            return Ok(None);
        }
        let kind = self.pending[0].kind_of();
        if !self.totals.has_room(kind) || self.in_flight == u64::MAX {
            return Err(RunError::CounterOverflow);
        }
        let task = self.pending.pop_front().unwrap();
        let _ = self.totals.tally(kind);
        self.in_flight = self.in_flight + 1;
        proof {
            let flying = old(self).flying();
            self.flying = Ghost(flying.push(task));
            lemma_count_push(flying, task, TaskType::Hash);
            lemma_count_push(flying, task, TaskType::Derive);
            lemma_count_push(flying, task, TaskType::Random);
            lemma_dispatch(old(self).completed(), flying, old(self).pending());
        }
        Ok(Some(task))
    }

    /// Books the completion of a task: folds `output` into the aggregate,
    /// appends `children` to the pending tasks and takes one task off those in
    /// flight.
    ///
    /// Fails, and changes nothing, exactly where no task is in flight: with
    /// `AlreadyComplete` where nothing is pending either, with `NotInFlight`
    /// where tasks are pending.
    ///
    /// The engine cannot tell whose outcome it is handed. Where it is the
    /// outcome of a task in flight, a task with that outcome is the one taken
    /// off, and a balanced run stays balanced and is one step nearer to its
    /// end. Where it is the outcome of no task in flight, the task that has
    /// been in flight longest is taken off, and the balance is lost.
    pub fn on_complete(&mut self, output: u64, children: Vec<T>) -> (result: Result<
        (),
        RunError,
    >)
        requires
            old(self).wf(),
        ensures
            final(self).wf(),
            final(self).origin() == old(self).origin(),
            match result {
                Ok(()) => {
                    &&& old(self).in_flight() > 0
                    &&& final(self).in_flight() == old(self).in_flight() - 1
                    &&& final(self).pending() == old(self).pending() + children@
                    &&& final(self).totals() == old(self).totals().folded(output)
                    &&& exists|index: int|
                        {
                            &&& 0 <= index < old(self).flying().len()
                            &&& #[trigger] old(self).flying().remove(index) == final(self).flying()
                            &&& final(self).completed() == old(self).completed().push(
                                old(self).flying()[index],
                            )
                            &&& old(self).genuine(output, children@) ==> old(self).is_outcome(
                                index,
                                output,
                                children@,
                            )
                        }
                },
                Err(error) => {
                    &&& old(self).in_flight() == 0
                    &&& error == if old(self).pending().len() == 0 {
                        RunError::AlreadyComplete
                    } else {
                        RunError::NotInFlight
                    }
                    &&& *final(self) == *old(self)
                },
            },
            old(self).balanced() && old(self).genuine(output, children@) ==> final(self).balanced()
                && final(self).remaining_steps() == old(self).remaining_steps() - 1,
    {
        if self.in_flight == 0 {
            if self.pending.len() == 0 {
                return Err(RunError::AlreadyComplete);
            }
            return Err(RunError::NotInFlight);
        }
        self.totals.fold(output);
        let mut arrived = into_queue(children);
        self.pending.append(&mut arrived);
        self.in_flight = self.in_flight - 1;
        proof {
            let flying = old(self).flying();
            let done = old(self).completed();
            let index = if old(self).genuine(output, children@) {
                choose|index: int| old(self).is_outcome(index, output, children@)
            } else {
                0
            };
            let task = flying[index];
            self.flying = Ghost(flying.remove(index));
            self.completed = Ghost(done.push(task));
            lemma_count_push(done, task, TaskType::Hash);
            lemma_count_push(done, task, TaskType::Derive);
            lemma_count_push(done, task, TaskType::Random);
            lemma_count_remove(flying, index, TaskType::Hash);
            lemma_count_remove(flying, index, TaskType::Derive);
            lemma_count_remove(flying, index, TaskType::Random);
            if old(self).balanced() && old(self).genuine(output, children@) {
                lemma_xor_push(done, task);
                lemma_completion(done, flying, old(self).pending(), index);
            }
        }
        Ok(())
    }

    /// The totals, once the run is complete; `None` before that.
    ///
    /// Of a balanced run these are the totals of the forest of the initial
    /// batch: see [`lemma_complete_totals`].
    pub fn snapshot(&self) -> (report: Option<Report>)
        ensures
            report is Some <==> self.is_complete(),
            report matches Some(totals) ==> totals == self.totals(),
    {
        if self.is_done() {
            Some(self.totals.snapshot())
        } else {
            None
        }
    }
}

/// The items of `items` as a queue, first item first.
fn into_queue<T>(items: Vec<T>) -> (queue: VecDeque<T>)
    ensures
        queue@ == items@,
{
    let mut items = items;
    let mut queue: VecDeque<T> = VecDeque::new();
    let ghost all = items@;
    loop
        invariant
            items@.len() <= all.len(),
            items@ == all.take(items@.len() as int),
            queue@ == all.skip(items@.len() as int),
        ensures
            queue@ == all,
        decreases items@.len(),
    {
        match items.pop() {
            None => {
                assert(all.skip(0) == all);
                break ;
            },
            Some(item) => {
                queue.push_front(item);
                assert(seq![item] + all.skip(items@.len() as int + 1) == all.skip(items@.len() as int));
            },
        }
    }
    queue
}

/// Handing out the first pending task moves its subtree from the forest of
/// the pending tasks to the forest of the tasks in flight.
proof fn lemma_dispatch<T: Job>(completed: Seq<T>, flying: Seq<T>, pending: Seq<T>)
    requires
        pending.len() > 0,
    ensures
        completed.to_multiset().add(forest(flying.push(pending[0])).to_multiset()).add(
            forest(pending.drop_first()).to_multiset(),
        ) == completed.to_multiset().add(forest(flying).to_multiset()).add(
            forest(pending).to_multiset(),
        ),
        forest(flying.push(pending[0])).len() == forest(flying).len() + subtree(pending[0]).len(),
        forest(pending).len() == forest(pending.drop_first()).len() + subtree(pending[0]).len(),
{
    let task = pending[0];
    let rest = pending.drop_first();
    assert(pending == seq![task] + rest);
    lemma_forest_concat(seq![task], rest);
    lemma_forest_push(Seq::empty(), task);
    assert(Seq::<T>::empty().push(task) == seq![task]);
    assert(forest(Seq::<T>::empty()) + subtree(task) == subtree(task));
    lemma_forest_push(flying, task);
    lemma_multiset_commutative(subtree(task), forest(rest));
    lemma_multiset_commutative(forest(flying), subtree(task));
    assert(completed.to_multiset().add(forest(flying.push(task)).to_multiset()).add(
        forest(rest).to_multiset(),
    ) =~= completed.to_multiset().add(forest(flying).to_multiset()).add(
        forest(pending).to_multiset(),
    ));
}

/// Completing the task at `index` of those in flight moves the task to the
/// tasks completed and the forest of its children to the forest of the
/// pending tasks.
proof fn lemma_completion<T: Job>(completed: Seq<T>, flying: Seq<T>, pending: Seq<T>, index: int)
    requires
        0 <= index < flying.len(),
    ensures
        completed.push(flying[index]).to_multiset().add(
            forest(flying.remove(index)).to_multiset(),
        ).add(forest(pending + flying[index].successors()).to_multiset())
            == completed.to_multiset().add(forest(flying).to_multiset()).add(
            forest(pending).to_multiset(),
        ),
        forest(flying).len() == forest(flying.remove(index)).len() + 1 + forest(
            flying[index].successors(),
        ).len(),
        forest(pending + flying[index].successors()).len() == forest(pending).len() + forest(
            flying[index].successors(),
        ).len(),
{
    broadcast use group_to_multiset_ensures;

    let task = flying[index];
    let children = task.successors();
    lemma_forest_remove(flying, index);
    lemma_subtree_unfold(task);
    lemma_forest_concat(pending, children);
    lemma_multiset_commutative(seq![task], forest(children));
    lemma_multiset_commutative(forest(pending), forest(children));
    assert(seq![task] == Seq::<T>::empty().push(task));
    assert(completed.push(task).to_multiset().add(forest(flying.remove(index)).to_multiset()).add(
        forest(pending + children).to_multiset(),
    ) =~= completed.to_multiset().add(forest(flying).to_multiset()).add(
        forest(pending).to_multiset(),
    ));
    assert(forest(flying).to_multiset().len() == forest(flying.remove(index)).to_multiset().len()
        + subtree(task).to_multiset().len());
}

/// In a balanced run that is complete every task of the forest of the
/// initial batch was completed exactly once, and no other task was: the
/// tasks completed are that forest, in some order.
pub proof fn lemma_complete_forest<T: Job>(engine: Scheduler<T>)
    requires
        engine.wf(),
        engine.balanced(),
        engine.is_complete(),
    ensures
        engine.flying().len() == 0,
        engine.completed().to_multiset() == forest(engine.origin()).to_multiset(),
{
    broadcast use group_to_multiset_ensures;

    let none = Seq::<T>::empty();
    assert(engine.pending() == none);
    assert(engine.flying() == none);
    assert(none.to_multiset().len() == 0);
    assert(forall|task: T| none.to_multiset().count(task) == 0);
    assert(engine.completed().to_multiset().add(forest(none).to_multiset()).add(
        forest(none).to_multiset(),
    ) =~= engine.completed().to_multiset());
}

/// The totals of a complete run do not depend on the schedule: whatever the
/// order in which the tasks were handed out and reported complete, a balanced
/// run that is complete holds the totals of the forest of its initial batch.
pub proof fn lemma_complete_totals<T: Job>(engine: Scheduler<T>)
    requires
        engine.wf(),
        engine.balanced(),
        engine.is_complete(),
    ensures
        totals_of(engine.origin(), engine.totals()),
{
    lemma_complete_forest(engine);
    let done = engine.completed();
    let all = forest(engine.origin());
    lemma_xor_permutation(done, all);
    lemma_count_permutation(done, all, TaskType::Hash);
    lemma_count_permutation(done, all, TaskType::Derive);
    lemma_count_permutation(done, all, TaskType::Random);
}

/// Two complete, balanced runs from the same initial batch end with the same
/// totals.
pub proof fn lemma_same_origin_same_totals<T: Job>(first: Scheduler<T>, second: Scheduler<T>)
    requires
        first.wf(),
        first.balanced(),
        first.is_complete(),
        second.wf(),
        second.balanced(),
        second.is_complete(),
        first.origin() == second.origin(),
    ensures
        first.totals() == second.totals(),
{
    lemma_complete_totals(first);
    lemma_complete_totals(second);
}

/// The three counts add up to the number of tasks handed out so far, those
/// completed and those in flight; in a balanced run that is complete, to the
/// number of tasks in the forest of the initial batch.
pub proof fn lemma_counts_conserved<T: Job>(engine: Scheduler<T>)
    requires
        engine.wf(),
    ensures
        engine.totals().hash_count + engine.totals().derive_count + engine.totals().random_count
            == engine.completed().len() + engine.flying().len(),
        engine.balanced() && engine.is_complete() ==> engine.totals().hash_count
            + engine.totals().derive_count + engine.totals().random_count == forest(
            engine.origin(),
        ).len(),
{
    broadcast use group_to_multiset_ensures;

    lemma_counts_cover(engine.completed());
    lemma_counts_cover(engine.flying());
    if engine.balanced() && engine.is_complete() {
        lemma_complete_forest(engine);
        assert(engine.completed().to_multiset().len() == engine.completed().len());
        assert(forest(engine.origin()).to_multiset().len() == forest(engine.origin()).len());
    }
}

/// The number of steps that a run still takes is never negative, and it is 0
/// exactly where the run is complete. Each `submit` that hands out a task and
/// each genuine report of completion takes one off it, so a balanced run from
/// any initial batch is complete after `2 * forest(origin).len()` steps.
pub proof fn lemma_steps_reach_zero<T: Job>(engine: Scheduler<T>)
    requires
        engine.wf(),
    ensures
        engine.remaining_steps() >= 0,
        engine.remaining_steps() == 0 <==> engine.is_complete(),
{
    lemma_forest_holds_roots(engine.pending(), TaskType::Hash);
    lemma_forest_holds_roots(engine.flying(), TaskType::Hash);
    if engine.is_complete() {
        assert(engine.pending() == Seq::<T>::empty());
        assert(engine.flying() == Seq::<T>::empty());
    }
}

} // verus!
