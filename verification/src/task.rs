//! Tasks that come in batches: how a seed turns into a batch, and what
//! executing a task yields.
//!
//! A task that is executed generates all its children at once, from one
//! stream seeded with the task's seed XOR its output: first their number,
//! then each child in turn.

use crate::job::Job;
use crate::stream::{
    after_pick, draw_below, draw_through, draw_word, pick, seed_stream, seeded, word_draw,
};
use crate::work::{do_work, work_output};
use rand_chacha::ChaCha20Rng;
use vstd::prelude::*;

verus! {

/// Number of tasks that the initial batch may hold at most.
pub const INITIAL_WIDTH: usize = 64;

/// The kinds of CPU-bound work.
#[derive(Copy, Clone, Debug, PartialEq, Eq, Hash, Structural)]
pub enum TaskType {
    Hash,
    Derive,
    Random,
}

/// One node of the task tree.
#[derive(Copy, Clone, Debug, PartialEq, Eq, Structural)]
pub struct Task {
    /// The work to perform.
    pub typ: TaskType,
    /// Drives both the work and the generation of children.
    pub seed: u64,
    /// Levels that may still follow below.
    pub height: usize,
    /// Most children that the node, and each of its descendants, may have.
    pub max_children: usize,
}

/// What executing a task yields: its output and its children, in order.
pub type TaskResult = (u64, Vec<Task>);

/// The kind that stands at `index` in the order Hash, Derive, Random.
pub open spec fn kind_at(index: usize) -> TaskType {
    if index == 0 {
        TaskType::Hash
    } else if index == 1 {
        TaskType::Derive
    } else {
        TaskType::Random
    }
}

/// Output of a task: a function of its kind and seed alone.
pub open spec fn spec_output(task: Task) -> u64 {
    work_output(task.typ, task.seed)
}

/// The next `count` tasks drawn from `rng`: for each, first its kind, then
/// its seed.
pub open spec fn spec_batch(rng: ChaCha20Rng, count: nat, height: usize, max_children: usize) -> Seq<
    Task,
>
    decreases count,
{
    if count == 0 {
        Seq::empty()
    } else {
        let typ = kind_at(pick(rng, 0, 2));
        let word = word_draw(after_pick(rng, 0, 2));
        seq![Task { typ, seed: word.0, height, max_children }] + spec_batch(
            word.1,
            (count - 1) as nat,
            height,
            max_children,
        )
    }
}

/// The batch that `seed` generates: a count drawn from `0..=max_num`, then
/// that many tasks, each with the given height and child bound.
pub open spec fn spec_generate(seed: u64, height: usize, max_children: usize, max_num: usize) -> Seq<
    Task,
> {
    let start = seeded(seed);
    spec_batch(after_pick(start, 0, max_num), pick(start, 0, max_num) as nat, height, max_children)
}

/// The children that a task has once its output is known: none at height 0,
/// else the batch that the task's seed XOR the output generates one level
/// further down.
pub open spec fn spec_expand(task: Task, output: u64) -> Seq<Task> {
    if task.height == 0 {
        Seq::empty()
    } else {
        spec_generate(
            task.seed ^ output,
            (task.height - 1) as usize,
            task.max_children,
            task.max_children,
        )
    }
}

/// The children of a task.
pub open spec fn spec_children(task: Task) -> Seq<Task> {
    spec_expand(task, spec_output(task))
}

/// `result` is what executing `task` yields.
pub open spec fn is_outcome(task: Task, result: TaskResult) -> bool {
    result.0 == spec_output(task) && result.1@ == spec_children(task)
}

/// Executing a task twice yields the same output and the same children: an
/// outcome depends on nothing but the task.
pub proof fn lemma_execute_idempotent(task: Task, first: TaskResult, second: TaskResult)
    requires
        is_outcome(task, first),
        is_outcome(task, second),
    ensures
        first.0 == second.0,
        first.1@ == second.1@,
{
}

/// Every task of a batch carries the height and the child bound that the
/// batch was generated with, and a batch is as long as its count.
pub proof fn lemma_batch_shape(rng: ChaCha20Rng, count: nat, height: usize, max_children: usize)
    ensures
        spec_batch(rng, count, height, max_children).len() == count,
        forall|i: int|
            0 <= i < count ==> {
                &&& (#[trigger] spec_batch(rng, count, height, max_children)[i]).height == height
                &&& spec_batch(rng, count, height, max_children)[i].max_children == max_children
            },
    decreases count,
{
    if count > 0 {
        lemma_batch_shape(
            word_draw(after_pick(rng, 0, 2)).1,
            (count - 1) as nat,
            height,
            max_children,
        );
    }
}

/// A generated batch holds at most `max_num` tasks, each with the height and
/// the child bound that were handed in.
pub proof fn lemma_generate_shape(seed: u64, height: usize, max_children: usize, max_num: usize)
    ensures
        spec_generate(seed, height, max_children, max_num).len() <= max_num,
        forall|i: int|
            0 <= i < spec_generate(seed, height, max_children, max_num).len() ==> {
                &&& (#[trigger] spec_generate(seed, height, max_children, max_num)[i]).height
                    == height
                &&& spec_generate(seed, height, max_children, max_num)[i].max_children
                    == max_children
            },
{
    let start = seeded(seed);
    lemma_batch_shape(
        after_pick(start, 0, max_num),
        pick(start, 0, max_num) as nat,
        height,
        max_children,
    );
}

/// A task at height 0 has no children; the children of any other task stand
/// one level below it, carry its child bound, and are at most that many.
pub proof fn lemma_children_shape(task: Task)
    ensures
        task.height == 0 ==> spec_children(task).len() == 0,
        spec_children(task).len() <= task.max_children,
        forall|i: int|
            0 <= i < spec_children(task).len() ==> {
                &&& (#[trigger] spec_children(task)[i]).height + 1 == task.height
                &&& spec_children(task)[i].max_children == task.max_children
            },
{
    if task.height > 0 {
        lemma_generate_shape(
            task.seed ^ spec_output(task),
            (task.height - 1) as usize,
            task.max_children,
            task.max_children,
        );
    }
}

impl TaskType {
    /// The kind at `index` in the order Hash, Derive, Random.
    pub fn from_index(index: usize) -> (kind: TaskType)
        requires
            index < 3,
        ensures
            kind == kind_at(index),
    {
        if index == 0 {
            TaskType::Hash
        } else if index == 1 {
            TaskType::Derive
        } else {
            TaskType::Random
        }
    }
}

/// Generates a batch of tasks from `seed`: draws a count from `0..=max_num`
/// and then, for each task in turn, its kind and its seed. Every task gets
/// `height` and `max_children` as they are.
pub fn generate_set(seed: u64, height: usize, max_children: usize, max_num: usize) -> (tasks: Vec<
    Task,
>)
    ensures
        tasks@ == spec_generate(seed, height, max_children, max_num),
        tasks@.len() <= max_num,
        forall|i: int|
            0 <= i < tasks@.len() ==> (#[trigger] tasks@[i]).height == height
                && tasks@[i].max_children == max_children,
{
    let mut rng = seed_stream(seed);
    let num_tasks: usize = draw_through(&mut rng, 0, max_num);
    let ghost first = rng;
    let mut tasks: Vec<Task> = Vec::new();
    let mut i: usize = 0;
    while i < num_tasks
        invariant
            i <= num_tasks,
            tasks@.len() == i,
            spec_batch(first, num_tasks as nat, height, max_children) == tasks@ + spec_batch(
                rng,
                (num_tasks - i) as nat,
                height,
                max_children,
            ),
        decreases num_tasks - i,
    {
        let ghost before = rng;
        let index: usize = draw_below(&mut rng, 0, 3);
        let typ = TaskType::from_index(index);
        let seed: u64 = draw_word(&mut rng);
        let task = Task { typ, seed, height, max_children };
        proof {
            let rest = spec_batch(rng, (num_tasks - i - 1) as nat, height, max_children);
            assert(spec_batch(before, (num_tasks - i) as nat, height, max_children) == seq![task]
                + rest);
            assert(tasks@ + (seq![task] + rest) == tasks@.push(task) + rest);
        }
        tasks.push(task);
        i += 1;
    }
    proof {
        lemma_generate_shape(seed, height, max_children, max_num);
    }
    tasks
}

impl Task {
    /// Performs the task's work and generates its children from the seed
    /// `self.seed ^ output`.
    pub fn execute(&self) -> (result: TaskResult)
        ensures
            is_outcome(*self, result),
    {
        let output = do_work(self.typ, self.seed);
        (output, self.expand(output))
    }

    /// The children of a task whose output is `output`: none at height 0,
    /// else the batch that `self.seed ^ output` generates one level further
    /// down, at most `self.max_children` of them.
    pub fn expand(&self, output: u64) -> (children: Vec<Task>)
        ensures
            children@ == spec_expand(*self, output),
            children@.len() <= self.max_children,
            self.height == 0 ==> children@.len() == 0,
            forall|i: int|
                0 <= i < children@.len() ==> (#[trigger] children@[i]).height + 1 == self.height
                    && children@[i].max_children == self.max_children,
    {
        if self.height == 0 {
            Vec::new()
        } else {
            generate_set(self.seed ^ output, self.height - 1, self.max_children, self.max_children)
        }
    }

    /// The initial batch of a run: up to 64 tasks generated from `seed`, all
    /// at `starting_height`.
    pub fn generate_initial(seed: u64, starting_height: usize, max_children: usize) -> (tasks: Vec<
        Task,
    >)
        ensures
            tasks@ == spec_generate(seed, starting_height, max_children, INITIAL_WIDTH),
            tasks@.len() <= INITIAL_WIDTH,
            forall|i: int|
                0 <= i < tasks@.len() ==> (#[trigger] tasks@[i]).height == starting_height
                    && tasks@[i].max_children == max_children,
    {
        generate_set(seed, starting_height, max_children, INITIAL_WIDTH)
    }
}

impl Job for Task {
    open spec fn kind(&self) -> TaskType {
        self.typ
    }

    open spec fn output(&self) -> u64 {
        spec_output(*self)
    }

    open spec fn successors(&self) -> Seq<Task> {
        spec_children(*self)
    }

    open spec fn rank(&self) -> nat {
        self.height as nat
    }

    proof fn lemma_successors_sink(&self) {
        lemma_children_shape(*self);
    }

    fn kind_of(&self) -> (kind: TaskType) {
        self.typ
    }

    fn perform(&self) -> (outcome: (u64, Vec<Task>)) {
        self.execute()
    }
}

} // verus!
