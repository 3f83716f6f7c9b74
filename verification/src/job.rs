//! What the scheduling engine asks of the tasks it runs.
//!
//! How a task turns into further tasks is a policy of its own. The engine and
//! the laws of a run hold for every policy that meets this trait: a job has a
//! kind, executing it yields an output and the jobs that follow from it, both
//! functions of the job alone, and the jobs that follow stand strictly lower
//! than the job itself, so that no tree is endless.

use crate::task::TaskType;
use vstd::prelude::*;

verus! {

/// A unit of work of a task tree.
pub trait Job: Sized {
    /// The kind of work.
    spec fn kind(&self) -> TaskType;

    /// The output of the work.
    spec fn output(&self) -> u64;

    /// The jobs that executing this one leads to, in order.
    spec fn successors(&self) -> Seq<Self>;

    /// A bound on the number of levels that can follow below.
    spec fn rank(&self) -> nat;

    /// Every successor stands strictly lower than the job it follows from.
    proof fn lemma_successors_sink(&self)
        ensures
            forall|i: int|
                0 <= i < self.successors().len() ==> (#[trigger] self.successors()[i]).rank()
                    < self.rank(),
    ;

    /// The kind of work.
    fn kind_of(&self) -> (kind: TaskType)
        ensures
            kind == self.kind(),
    ;

    /// Does the work and generates the successors.
    fn perform(&self) -> (outcome: (u64, Vec<Self>))
        ensures
            outcome.0 == self.output(),
            outcome.1@ == self.successors(),
    ;
}

/// What executing `job` yields: its output and its successors.
pub open spec fn outcome_of<T: Job>(job: T) -> (u64, Seq<T>) {
    (job.output(), job.successors())
}

} // verus!
