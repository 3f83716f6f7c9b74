//! Deterministic expansion of a synthetic task tree, with the bookkeeping a
//! scheduler needs to run it on any number of workers.
//!
//! A run starts from a batch of tasks generated from a seed. Executing a task
//! does CPU-bound work, which yields an output, and generates further tasks
//! from the task's seed and that output. The run folds all outputs into one
//! aggregate by XOR and counts the tasks of each kind. Aggregate and counts
//! depend on the seed, the starting height and the child bound alone, not on
//! the order in which the tasks are taken.
//!
//! - [`stream`] and [`hashing`] hold what is trusted: the pseudo-random stream
//!   and the two cryptographic primitives.
//! - [`work`] is the work of the three kinds.
//! - [`task`] and [`chain`] are two ways of generating tasks; [`job`] is what
//!   the engine asks of either.
//! - [`tree`] defines the forest that a batch unfolds into and the totals of
//!   a complete run over it.
//! - [`accumulator`] keeps the totals, [`scheduler`] the frontier of a run;
//!   [`run`] drives whole runs on one thread.

pub mod accumulator;
pub mod chain;
pub mod hashing;
pub mod job;
pub mod run;
pub mod scheduler;
pub mod stream;
pub mod task;
pub mod tree;
pub mod work;
