//! The tree that a batch of jobs unfolds into, and what a complete run over
//! it adds up to.
//!
//! Everything here is specification and proof. A run is complete once every
//! job of the forest has been executed exactly once; its aggregate and its
//! counts are then folds over the forest, and folds of that kind do not depend
//! on the order in which the jobs were taken.

use crate::accumulator::Report;
use crate::job::Job;
use crate::task::TaskType;
use vstd::prelude::*;
use vstd::seq_lib::{
    commutative_foldl, group_to_multiset_ensures, lemma_fold_left_permutation,
    lemma_multiset_commutative,
};

verus! {

/// The jobs of the tree under `job`, `depth` levels deep: the job itself,
/// then the trees of its successors in order.
pub open spec fn tree_jobs<T: Job>(job: T, depth: nat) -> Seq<T>
    decreases depth, 0nat,
{
    if depth == 0 {
        seq![job]
    } else {
        seq![job] + level_jobs(job.successors(), (depth - 1) as nat)
    }
}

/// The trees of `jobs`, each `depth` levels deep, one after the other.
pub open spec fn level_jobs<T: Job>(jobs: Seq<T>, depth: nat) -> Seq<T>
    decreases depth, jobs.len() + 1,
{
    if jobs.len() == 0 {
        Seq::empty()
    } else {
        level_jobs(jobs.drop_last(), depth) + tree_jobs(jobs.last(), depth)
    }
}

/// Every job that executing `job` leads to, itself included.
pub open spec fn subtree<T: Job>(job: T) -> Seq<T> {
    tree_jobs(job, job.rank())
}

/// Every job that executing the jobs of `jobs` leads to.
pub open spec fn forest<T: Job>(jobs: Seq<T>) -> Seq<T>
    decreases jobs.len(),
{
    if jobs.len() == 0 {
        Seq::empty()
    } else {
        forest(jobs.drop_last()) + subtree(jobs.last())
    }
}

/// One step of the aggregate: the output of `job` folded into `aggregate`.
pub open spec fn fold_step<T: Job>() -> spec_fn(u64, T) -> u64 {
    |aggregate: u64, job: T| aggregate ^ job.output()
}

/// One step of a count: `count` plus one if `job` is of kind `kind`.
pub open spec fn tally_step<T: Job>(kind: TaskType) -> spec_fn(nat, T) -> nat {
    |count: nat, job: T|
        if job.kind() == kind {
            count + 1
        } else {
            count
        }
}

/// The XOR of the outputs of `jobs`.
pub open spec fn xor_outputs<T: Job>(jobs: Seq<T>) -> u64 {
    jobs.fold_left(0u64, fold_step())
}

/// The number of jobs of kind `kind` among `jobs`.
pub open spec fn count_kind<T: Job>(jobs: Seq<T>, kind: TaskType) -> nat {
    jobs.fold_left(0nat, tally_step(kind))
}

/// `report` holds the totals of a complete run from `origin`: the XOR of the
/// outputs of all jobs of the forest, and the number of jobs of each kind in
/// it.
pub open spec fn totals_of<T: Job>(origin: Seq<T>, report: Report) -> bool {
    &&& report.aggregate == xor_outputs(forest(origin))
    &&& report.hash_count == count_kind(forest(origin), TaskType::Hash)
    &&& report.derive_count == count_kind(forest(origin), TaskType::Derive)
    &&& report.random_count == count_kind(forest(origin), TaskType::Random)
}

/// The forest of `origin` holds more jobs of some kind than a count can hold.
pub open spec fn overflows<T: Job>(origin: Seq<T>) -> bool {
    exists|kind: TaskType| #[trigger] count_kind(forest(origin), kind) > usize::MAX
}

/// The job after position `at` of `chain` follows from the job at it.
pub open spec fn linked<T: Job>(chain: Seq<T>, at: int) -> bool {
    chain[at].successors().contains(chain[at + 1])
}

/// Each job of `chain` but the first follows from the job before it.
pub open spec fn is_chain<T: Job>(chain: Seq<T>) -> bool {
    forall|at: int| 0 <= at < chain.len() - 1 ==> #[trigger] linked(chain, at)
}

/// Appending a job to a batch appends its subtree to the forest.
pub proof fn lemma_forest_push<T: Job>(jobs: Seq<T>, job: T)
    ensures
        forest(jobs.push(job)) == forest(jobs) + subtree(job),
{
    assert(jobs.push(job).drop_last() == jobs);
}

/// The forest of two batches in a row is the two forests in a row.
pub proof fn lemma_forest_concat<T: Job>(left: Seq<T>, right: Seq<T>)
    ensures
        forest(left + right) == forest(left) + forest(right),
    decreases right.len(),
{
    if right.len() == 0 {
        assert(left + right == left);
    } else {
        lemma_forest_concat(left, right.drop_last());
        assert((left + right).drop_last() == left + right.drop_last());
        assert((left + right).last() == right.last());
    }
}

/// A tree cut at any depth that is no less than the rank of its root is the
/// whole tree: the root, then the forest of its successors.
pub proof fn lemma_deep_enough<T: Job>(job: T, depth: nat)
    requires
        job.rank() <= depth,
    ensures
        tree_jobs(job, depth) == seq![job] + forest(job.successors()),
    decreases depth, 0nat, 0nat,
{
    job.lemma_successors_sink();
    if depth == 0 {
        if job.successors().len() > 0 {
            assert(job.successors()[0].rank() < job.rank());
        }
        assert(seq![job] + forest(job.successors()) == seq![job]);
    } else {
        lemma_level_deep_enough(job.successors(), (depth - 1) as nat);
    }
}

/// A level cut at any depth that is no less than the ranks of its jobs is
/// their forest.
pub proof fn lemma_level_deep_enough<T: Job>(jobs: Seq<T>, depth: nat)
    requires
        forall|i: int| 0 <= i < jobs.len() ==> (#[trigger] jobs[i]).rank() <= depth,
    ensures
        level_jobs(jobs, depth) == forest(jobs),
    decreases depth, 1nat, jobs.len(),
{
    if jobs.len() > 0 {
        let last = jobs.last();
        assert(last == jobs[jobs.len() - 1]);
        lemma_level_deep_enough(jobs.drop_last(), depth);
        lemma_deep_enough(last, depth);
        lemma_deep_enough(last, last.rank());
    }
}

/// The subtree of a job is the job followed by the forest of its successors.
pub proof fn lemma_subtree_unfold<T: Job>(job: T)
    ensures
        subtree(job) == seq![job] + forest(job.successors()),
{
    lemma_deep_enough(job, job.rank());
}

/// Taking one job out of a batch takes exactly its subtree out of the forest.
pub proof fn lemma_forest_remove<T: Job>(jobs: Seq<T>, index: int)
    requires
        0 <= index < jobs.len(),
    ensures
        forest(jobs).to_multiset() == forest(jobs.remove(index)).to_multiset().add(
            subtree(jobs[index]).to_multiset(),
        ),
{
    let before = jobs.take(index);
    let after = jobs.skip(index + 1);
    assert(jobs == before.push(jobs[index]) + after);
    assert(jobs.remove(index) == before + after);
    lemma_forest_concat(before.push(jobs[index]), after);
    lemma_forest_push(before, jobs[index]);
    lemma_forest_concat(before, after);
    lemma_multiset_commutative(forest(before) + subtree(jobs[index]), forest(after));
    lemma_multiset_commutative(forest(before), subtree(jobs[index]));
    lemma_multiset_commutative(forest(before), forest(after));
    assert(forest(jobs).to_multiset() =~= forest(jobs.remove(index)).to_multiset().add(
        subtree(jobs[index]).to_multiset(),
    ));
}

/// The aggregate of a sequence does not depend on its order.
pub proof fn lemma_xor_permutation<T: Job>(left: Seq<T>, right: Seq<T>)
    requires
        left.to_multiset() == right.to_multiset(),
    ensures
        xor_outputs(left) == xor_outputs(right),
{
    let step = fold_step::<T>();
    assert forall|x: T, y: T, v: u64| #[trigger] step(step(v, x), y) == step(step(v, y), x) by {
        let a = x.output();
        let b = y.output();
        assert((v ^ a) ^ b == (v ^ b) ^ a) by (bit_vector);
    }
    assert(commutative_foldl(step));
    lemma_fold_left_permutation(left, right, step, 0u64);
}

/// The counts of a sequence do not depend on its order.
pub proof fn lemma_count_permutation<T: Job>(left: Seq<T>, right: Seq<T>, kind: TaskType)
    requires
        left.to_multiset() == right.to_multiset(),
    ensures
        count_kind(left, kind) == count_kind(right, kind),
{
    let step = tally_step::<T>(kind);
    assert(commutative_foldl(step));
    lemma_fold_left_permutation(left, right, step, 0nat);
}

/// Appending a job folds its output into the aggregate.
pub proof fn lemma_xor_push<T: Job>(jobs: Seq<T>, job: T)
    ensures
        xor_outputs(jobs.push(job)) == xor_outputs(jobs) ^ job.output(),
{
    assert(jobs.push(job).drop_last() == jobs);
}

/// Appending a job counts it under its kind and under no other.
pub proof fn lemma_count_push<T: Job>(jobs: Seq<T>, job: T, kind: TaskType)
    ensures
        count_kind(jobs.push(job), kind) == count_kind(jobs, kind) + if job.kind() == kind {
            1nat
        } else {
            0nat
        },
{
    assert(jobs.push(job).drop_last() == jobs);
}

/// Taking a job out of a sequence takes one off the count of its kind and
/// leaves the other counts alone.
pub proof fn lemma_count_remove<T: Job>(jobs: Seq<T>, index: int, kind: TaskType)
    requires
        0 <= index < jobs.len(),
    ensures
        count_kind(jobs, kind) == count_kind(jobs.remove(index), kind) + if jobs[index].kind()
            == kind {
            1nat
        } else {
            0nat
        },
{
    broadcast use group_to_multiset_ensures;

    let moved = jobs.remove(index).push(jobs[index]);
    assert(moved.to_multiset() =~= jobs.to_multiset());
    lemma_count_permutation(jobs, moved, kind);
    lemma_count_push(jobs.remove(index), jobs[index], kind);
}

/// The counts of two sequences in a row are the sums of their counts.
pub proof fn lemma_count_concat<T: Job>(left: Seq<T>, right: Seq<T>, kind: TaskType)
    ensures
        count_kind(left + right, kind) == count_kind(left, kind) + count_kind(right, kind),
    decreases right.len(),
{
    if right.len() == 0 {
        assert(left + right == left);
    } else {
        lemma_count_concat(left, right.drop_last(), kind);
        assert((left + right).drop_last() == left + right.drop_last());
    }
}

/// Every job is of exactly one of the three kinds, so the three counts of a
/// sequence add up to its length.
pub proof fn lemma_counts_cover<T: Job>(jobs: Seq<T>)
    ensures
        count_kind(jobs, TaskType::Hash) + count_kind(jobs, TaskType::Derive) + count_kind(
            jobs,
            TaskType::Random,
        ) == jobs.len(),
    decreases jobs.len(),
{
    if jobs.len() > 0 {
        lemma_counts_cover(jobs.drop_last());
    }
}

/// A forest holds the jobs it grows from: of each kind at least as many jobs
/// as the batch, and at least as many jobs in all.
pub proof fn lemma_forest_holds_roots<T: Job>(jobs: Seq<T>, kind: TaskType)
    ensures
        count_kind(forest(jobs), kind) >= count_kind(jobs, kind),
        forest(jobs).len() >= jobs.len(),
    decreases jobs.len(),
{
    if jobs.len() > 0 {
        let job = jobs.last();
        lemma_forest_holds_roots(jobs.drop_last(), kind);
        lemma_subtree_unfold(job);
        lemma_count_concat(forest(jobs.drop_last()), subtree(job), kind);
        lemma_count_concat(seq![job], forest(job.successors()), kind);
        assert(seq![job] == Seq::<T>::empty().push(job));
        lemma_count_push(Seq::empty(), job, kind);
    }
}

/// Along a chain in which each job follows from the one before, the rank
/// falls at every link, so a chain is no longer than the rank of its first
/// job plus one.
pub proof fn lemma_chain_bounded<T: Job>(chain: Seq<T>)
    requires
        chain.len() > 0,
        is_chain(chain),
    ensures
        chain.len() <= chain[0].rank() + 1,
        chain.last().rank() + chain.len() <= chain[0].rank() + 1,
    decreases chain.len(),
{
    if chain.len() > 1 {
        let shorter = chain.drop_last();
        assert forall|at: int| 0 <= at < shorter.len() - 1 implies #[trigger] linked(
            shorter,
            at,
        ) by {
            assert(linked(chain, at));
        }
        lemma_chain_bounded(shorter);
        let parent = shorter.last();
        assert(linked(chain, chain.len() - 2));
        parent.lemma_successors_sink();
    }
}

} // verus!
