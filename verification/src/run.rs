//! Whole runs on one thread: drive the engine from an initial batch until it
//! is complete, and report the totals.
//!
//! Two schedules are offered. They differ in how many jobs are in flight at a
//! time and in the order in which the jobs are taken, and they are proved to
//! end with the same totals: those of the forest of the initial batch.

use crate::accumulator::{Report, RunError};
use crate::job::{outcome_of, Job};
use crate::scheduler::{lemma_complete_totals, lemma_steps_reach_zero, Scheduler};
use crate::task::{lemma_children_shape, lemma_generate_shape, spec_generate, Task, INITIAL_WIDTH};
use crate::tree::{
    count_kind, forest, is_chain, lemma_count_concat, lemma_count_permutation, lemma_count_remove,
    lemma_forest_holds_roots, linked, overflows, totals_of,
};
use std::collections::VecDeque;
use vstd::prelude::*;
use vstd::seq_lib::{group_to_multiset_ensures, lemma_multiset_commutative};

verus! {

/// The initial batch of the run that `seed`, `starting_height` and
/// `max_children` stand for.
pub open spec fn initial_batch(seed: u64, starting_height: usize, max_children: usize) -> Seq<Task> {
    spec_generate(seed, starting_height, max_children, INITIAL_WIDTH)
}

/// No task of a run has more than `starting_height` ancestors: a chain of
/// parent and child that starts in the initial batch is no longer than
/// `starting_height + 1`, and its last task stands at height
/// `starting_height + 1` less the length of the chain.
pub proof fn lemma_depth_bounded(
    seed: u64,
    starting_height: usize,
    max_children: usize,
    chain: Seq<Task>,
)
    requires
        chain.len() > 0,
        initial_batch(seed, starting_height, max_children).contains(chain[0]),
        is_chain(chain),
    ensures
        chain.len() <= starting_height + 1,
        chain.last().height + chain.len() == starting_height + 1,
    decreases chain.len(),
{
    lemma_generate_shape(seed, starting_height, max_children, INITIAL_WIDTH);
    if chain.len() > 1 {
        let shorter = chain.drop_last();
        assert forall|at: int| 0 <= at < shorter.len() - 1 implies #[trigger] linked(
            shorter,
            at,
        ) by {
            assert(linked(chain, at));
        }
        lemma_depth_bounded(seed, starting_height, max_children, shorter);
        assert(linked(chain, chain.len() - 2));
        lemma_children_shape(shorter.last());
    }
}

/// The outcomes of `jobs`, in order.
pub open spec fn outcomes<T: Job>(jobs: Seq<T>) -> Seq<(u64, Seq<T>)> {
    jobs.map_values(|job: T| outcome_of(job))
}

/// Where a balanced engine cannot count its next pending job, the forest of
/// its initial batch holds more jobs of that kind than a count can hold.
proof fn lemma_full_count_overflows<T: Job>(engine: Scheduler<T>)
    requires
        engine.wf(),
        engine.balanced(),
        engine.pending().len() > 0,
        engine.totals().count(engine.pending()[0].kind()) == usize::MAX,
    ensures
        overflows(engine.origin()),
{
    let kind = engine.pending()[0].kind();
    let done = engine.completed();
    let aloft = forest(engine.flying());
    let ahead = forest(engine.pending());
    lemma_multiset_commutative(done, aloft);
    lemma_multiset_commutative(done + aloft, ahead);
    lemma_count_permutation(done + aloft + ahead, forest(engine.origin()), kind);
    lemma_count_concat(done + aloft, ahead, kind);
    lemma_count_concat(done, aloft, kind);
    lemma_forest_holds_roots(engine.flying(), kind);
    lemma_forest_holds_roots(engine.pending(), kind);
    lemma_count_remove(engine.pending(), 0, kind);
    assert(engine.counts(kind));
    assert(count_kind(forest(engine.origin()), kind) > usize::MAX);
}

/// Where the jobs of a window and the jobs in flight have the same outcomes,
/// the outcome of the first job of the window is genuine.
proof fn lemma_window_front_is_genuine<T: Job>(engine: Scheduler<T>, window: Seq<T>)
    requires
        window.len() > 0,
        outcomes(engine.flying()).to_multiset() == outcomes(window).to_multiset(),
    ensures
        engine.genuine(outcome_of(window[0]).0, outcome_of(window[0]).1),
{
    broadcast use group_to_multiset_ensures;

    let wanted = outcome_of(window[0]);
    assert(outcomes(window)[0] == wanted);
    assert(outcomes(window).contains(wanted));
    assert(outcomes(window).to_multiset().count(wanted) > 0);
    assert(outcomes(engine.flying()).to_multiset().count(wanted) > 0);
    assert(outcomes(engine.flying()).contains(wanted));
    let index = choose|index: int|
        0 <= index < outcomes(engine.flying()).len() && outcomes(engine.flying())[index] == wanted;
    assert(engine.is_outcome(index, wanted.0, wanted.1));
}

/// Taking a job with the outcome of the window's first job off the jobs in
/// flight, and the first job off the window, leaves both with the same
/// outcomes again.
proof fn lemma_window_advances<T: Job>(flying: Seq<T>, index: int, window: Seq<T>)
    requires
        window.len() > 0,
        0 <= index < flying.len(),
        outcome_of(flying[index]) == outcome_of(window[0]),
        outcomes(flying).to_multiset() == outcomes(window).to_multiset(),
    ensures
        outcomes(flying.remove(index)).to_multiset() == outcomes(
            window.drop_first(),
        ).to_multiset(),
{
    broadcast use group_to_multiset_ensures;

    assert(outcomes(flying.remove(index)) == outcomes(flying).remove(index));
    assert(window.drop_first() == window.remove(0));
    assert(outcomes(window.remove(0)) == outcomes(window).remove(0));
}

/// Handing the same job to the jobs in flight and to the window leaves both
/// with the same outcomes again.
proof fn lemma_window_grows<T: Job>(flying: Seq<T>, window: Seq<T>, job: T)
    requires
        outcomes(flying).to_multiset() == outcomes(window).to_multiset(),
    ensures
        outcomes(flying.push(job)).to_multiset() == outcomes(window.push(job)).to_multiset(),
{
    broadcast use group_to_multiset_ensures;

    assert(outcomes(flying.push(job)) == outcomes(flying).push(outcome_of(job)));
    assert(outcomes(window.push(job)) == outcomes(window).push(outcome_of(job)));
}

/// Runs the forest of `initial` to its end, one job at a time: each job is
/// handed out, executed and reported complete before the next one is taken.
///
/// Returns the totals of the forest. Fails with `CounterOverflow` exactly
/// where the forest holds more jobs of some kind than a count can hold.
pub fn drive_serial<T: Job>(initial: Vec<T>) -> (result: Result<Report, RunError>)
    ensures
        match result {
            Ok(report) => totals_of(initial@, report),
            Err(error) => error == RunError::CounterOverflow && overflows(initial@),
        },
{
    let mut engine = Scheduler::new(initial);
    loop
        invariant
            engine.wf(),
            engine.balanced(),
            engine.in_flight() == 0,
            engine.origin() == initial@,
        ensures
            engine.wf(),
            engine.balanced(),
            engine.is_complete(),
            engine.origin() == initial@,
        decreases engine.remaining_steps(),
    {
        proof {
            lemma_steps_reach_zero(engine);
        }
        let ghost before = engine;
        match engine.submit() {
            Ok(None) => {
                break ;
            },
            Ok(Some(job)) => {
                let (output, successors) = job.perform();
                proof {
                    assert(engine.flying() == Seq::<T>::empty().push(job));
                    assert(engine.is_outcome(0, output, successors@));
                    lemma_steps_reach_zero(engine);
                }
                let _ = engine.on_complete(output, successors);
            },
            Err(error) => {
                proof {
                    lemma_full_count_overflows(before);
                }
                return Err(error);
            },
        }
    }
    proof {
        lemma_complete_totals(engine);
    }
    let report = engine.snapshot();
    Ok(report.unwrap())
}

/// Runs the forest of `initial` to its end with at most `workers` jobs in
/// flight at any time: jobs are handed out while a worker is free, then the
/// job that has been in flight longest is executed and reported complete.
///
/// Returns what [`drive_serial`] returns, whatever `workers` is: the totals
/// of the forest. Fails with `CounterOverflow` exactly where the forest holds
/// more jobs of some kind than a count can hold.
pub fn drive_bounded<T: Job>(initial: Vec<T>, workers: usize) -> (result: Result<Report, RunError>)
    requires
        workers > 0,
    ensures
        match result {
            Ok(report) => totals_of(initial@, report),
            Err(error) => error == RunError::CounterOverflow && overflows(initial@),
        },
{
    let mut engine = Scheduler::new(initial);
    let mut window: VecDeque<T> = VecDeque::new();
    loop
        invariant
            workers > 0,
            engine.wf(),
            engine.balanced(),
            engine.origin() == initial@,
            engine.in_flight() == window@.len(),
            window@.len() <= workers,
            outcomes(engine.flying()).to_multiset() == outcomes(window@).to_multiset(),
        ensures
            engine.wf(),
            engine.balanced(),
            engine.is_complete(),
            engine.origin() == initial@,
        decreases engine.remaining_steps(),
    {
        let ghost steps = engine.remaining_steps();
        loop
            invariant
                workers > 0,
                engine.wf(),
                engine.balanced(),
                engine.origin() == initial@,
                engine.in_flight() == window@.len(),
                window@.len() <= workers,
                outcomes(engine.flying()).to_multiset() == outcomes(window@).to_multiset(),
                engine.remaining_steps() <= steps,
            ensures
                engine.wf(),
                engine.balanced(),
                engine.origin() == initial@,
                engine.in_flight() == window@.len(),
                window@.len() <= workers,
                outcomes(engine.flying()).to_multiset() == outcomes(window@).to_multiset(),
                engine.remaining_steps() <= steps,
                window@.len() > 0 || engine.pending().len() == 0,
            decreases engine.pending().len(),
        {
            if window.len() >= workers {
                break ;
            }
            let ghost before = engine;
            match engine.submit() {
                Ok(None) => {
                    break ;
                },
                Ok(Some(job)) => {
                    proof {
                        lemma_window_grows(before.flying(), window@, job);
                    }
                    window.push_back(job);
                },
                Err(error) => {
                    proof {
                        lemma_full_count_overflows(before);
                    }
                    return Err(error);
                },
            }
        }
        proof {
            lemma_steps_reach_zero(engine);
        }
        let ghost before = engine;
        let ghost waiting = window@;
        match window.pop_front() {
            None => {
                break ;
            },
            Some(job) => {
                let (output, successors) = job.perform();
                proof {
                    lemma_window_front_is_genuine(engine, waiting);
                }
                let _ = engine.on_complete(output, successors);
                proof {
                    let index = choose|index: int|
                        0 <= index < before.flying().len() && #[trigger] before.flying().remove(
                            index,
                        ) == engine.flying() && before.is_outcome(index, output, successors@);
                    lemma_window_advances(before.flying(), index, waiting);
                    lemma_steps_reach_zero(engine);
                }
            },
        }
    }
    proof {
        lemma_complete_totals(engine);
    }
    let report = engine.snapshot();
    Ok(report.unwrap())
}

/// Runs the tree of `seed` to its end, one task at a time.
///
/// Returns the totals of the forest of the initial batch. Fails with
/// `CounterOverflow` exactly where that forest holds more tasks of some kind
/// than a count can hold.
pub fn run_serial(seed: u64, starting_height: usize, max_children: usize) -> (result: Result<
    Report,
    RunError,
>)
    ensures
        match result {
            Ok(report) => totals_of(initial_batch(seed, starting_height, max_children), report),
            Err(error) => error == RunError::CounterOverflow && overflows(
                initial_batch(seed, starting_height, max_children),
            ),
        },
{
    drive_serial(Task::generate_initial(seed, starting_height, max_children))
}

/// Runs the tree of `seed` to its end with at most `workers` tasks in flight
/// at any time.
///
/// Returns what [`run_serial`] returns, whatever `workers` is.
pub fn run_bounded(seed: u64, starting_height: usize, max_children: usize, workers: usize) -> (result:
    Result<Report, RunError>)
    requires
        workers > 0,
    ensures
        match result {
            Ok(report) => totals_of(initial_batch(seed, starting_height, max_children), report),
            Err(error) => error == RunError::CounterOverflow && overflows(
                initial_batch(seed, starting_height, max_children),
            ),
        },
{
    drive_bounded(Task::generate_initial(seed, starting_height, max_children), workers)
}

} // verus!
