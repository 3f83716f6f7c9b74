//! Tasks that come one at a time: each task leads to its first child and to
//! its next sibling.
//!
//! This is a generation policy of its own. A task that is executed draws the
//! number of its children and the first of them from a stream seeded with the
//! task's seed XOR its output. That child carries the stream on, and the
//! stream yields the next sibling when the child is executed in turn, and so
//! along the row. The trees have the shape of the trees of [`crate::task`],
//! but other seeds, and an initial task is there even where its row is drawn
//! empty.

use crate::job::Job;
use crate::stream::{
    after_pick, clone_stream, draw_below, draw_through, draw_word, pick, seed_stream, seeded,
    word_draw,
};
use crate::task::{kind_at, TaskType, INITIAL_WIDTH};
use crate::work::{do_work, work_output};
use rand_chacha::ChaCha20Rng;
use vstd::prelude::*;

verus! {

/// One node of a task tree, with its place in its row and the stream that the
/// rest of the row is drawn from.
#[derive(Debug, PartialEq, Eq)]
pub struct Task {
    /// The work to perform.
    pub typ: TaskType,
    /// Drives both the work and the generation of the first child.
    pub seed: u64,
    /// Levels that may still follow below.
    pub height: usize,
    /// Most children that the node, and each of its descendants, may have.
    pub max_children: usize,
    /// Place of the node in its row, from 0.
    pub current_sibling_idx: usize,
    /// Length of the row.
    pub max_siblings: usize,
    /// The stream of the row, as it stands after the node was drawn.
    pub rng: ChaCha20Rng,
}

/// What executing a task yields: its output, its first child and its next
/// sibling.
pub type TaskResult = (u64, Option<Task>, Option<Task>);

/// The task that the next two draws of `rng` give, first its kind, then its
/// seed; it carries the stream on.
pub open spec fn spec_draw(
    rng: ChaCha20Rng,
    height: usize,
    max_children: usize,
    index: usize,
    max_siblings: usize,
) -> Task {
    let typ = kind_at(pick(rng, 0, 2));
    let word = word_draw(after_pick(rng, 0, 2));
    Task {
        typ,
        seed: word.0,
        height,
        max_children,
        current_sibling_idx: index,
        max_siblings,
        rng: word.1,
    }
}

/// The first task of the row that `seed` generates: the length of the row
/// is drawn from `0..=max_num`, then the task.
pub open spec fn spec_first(seed: u64, height: usize, max_children: usize, max_num: usize) -> Task {
    let start = seeded(seed);
    spec_draw(after_pick(start, 0, max_num), height, max_children, 0, pick(start, 0, max_num))
}

/// The first child of a task whose output is `output`: none at height 0 and
/// none where the row of children is drawn empty.
pub open spec fn spec_child(task: Task, output: u64) -> Option<Task> {
    if task.height == 0 {
        None
    } else {
        let first = spec_first(
            task.seed ^ output,
            (task.height - 1) as usize,
            task.max_children,
            task.max_children,
        );
        if first.max_siblings > 0 {
            Some(first)
        } else {
            None
        }
    }
}

/// The next sibling of a task: none after the last place of the row.
pub open spec fn spec_sibling(task: Task) -> Option<Task> {
    if task.current_sibling_idx + 1 >= task.max_siblings {
        None
    } else {
        Some(
            spec_draw(
                task.rng,
                task.height,
                task.max_children,
                (task.current_sibling_idx + 1) as usize,
                task.max_siblings,
            ),
        )
    }
}

/// Output of a task: a function of its kind and seed alone.
pub open spec fn spec_output(task: Task) -> u64 {
    work_output(task.typ, task.seed)
}

/// `result` is what executing `task` yields.
pub open spec fn is_outcome(task: Task, result: TaskResult) -> bool {
    &&& result.0 == spec_output(task)
    &&& result.1 == spec_child(task, result.0)
    &&& result.2 == spec_sibling(task)
}

/// The tasks that a first child and a next sibling stand for, child first.
pub open spec fn both(child: Option<Task>, sibling: Option<Task>) -> Seq<Task> {
    let children = match child {
        Some(task) => seq![task],
        None => Seq::empty(),
    };
    match sibling {
        Some(task) => children.push(task),
        None => children,
    }
}

/// Executing a task twice yields the same output, the same child and the
/// same sibling: an outcome depends on nothing but the task.
pub proof fn lemma_execute_idempotent(task: Task, first: TaskResult, second: TaskResult)
    requires
        is_outcome(task, first),
        is_outcome(task, second),
    ensures
        first == second,
{
}

/// A child stands one level below its parent, at the head of a row that is
/// not empty and no longer than the child bound; a sibling stands at the
/// parent's level, one place further along the same row. Both carry the child
/// bound on.
pub proof fn lemma_next_shape(task: Task, output: u64)
    ensures
        task.height == 0 ==> spec_child(task, output) is None,
        spec_child(task, output) matches Some(child) ==> {
            &&& child.height + 1 == task.height
            &&& child.max_children == task.max_children
            &&& child.current_sibling_idx == 0
            &&& 0 < child.max_siblings <= task.max_children
        },
        spec_sibling(task) matches Some(sibling) ==> {
            &&& sibling.height == task.height
            &&& sibling.max_children == task.max_children
            &&& sibling.current_sibling_idx == task.current_sibling_idx + 1
            &&& sibling.max_siblings == task.max_siblings
            &&& sibling.current_sibling_idx < sibling.max_siblings
        },
{
}

/// Draws a task from `rng`, first its kind, then its seed, and hands the
/// stream on to it.
pub fn draw_task(
    rng: ChaCha20Rng,
    height: usize,
    max_children: usize,
    index: usize,
    max_siblings: usize,
) -> (task: Task)
    ensures
        task == spec_draw(rng, height, max_children, index, max_siblings),
{
    let mut rng = rng;
    let kind: usize = draw_below(&mut rng, 0, 3);
    let typ = TaskType::from_index(kind);
    let seed: u64 = draw_word(&mut rng);
    Task { typ, seed, height, max_children, current_sibling_idx: index, max_siblings, rng }
}

/// Generates the first task of a row from `seed`: draws the length of the
/// row from `0..=max_num`, then the task. The task is there even where the
/// length is drawn 0.
pub fn generate_set(seed: u64, height: usize, max_children: usize, max_num: usize) -> (task: Task)
    ensures
        task == spec_first(seed, height, max_children, max_num),
        task.height == height,
        task.max_children == max_children,
        task.current_sibling_idx == 0,
        task.max_siblings <= max_num,
{
    let mut rng = seed_stream(seed);
    let num_tasks: usize = draw_through(&mut rng, 0, max_num);
    draw_task(rng, height, max_children, 0, num_tasks)
}

impl Clone for Task {
    fn clone(&self) -> (copy: Task)
        ensures
            copy == *self,
    {
        Task {
            typ: self.typ,
            seed: self.seed,
            height: self.height,
            max_children: self.max_children,
            current_sibling_idx: self.current_sibling_idx,
            max_siblings: self.max_siblings,
            rng: clone_stream(&self.rng),
        }
    }
}

impl Task {
    /// Performs the task's work and generates its first child and its next
    /// sibling.
    pub fn execute(&self) -> (result: TaskResult)
        ensures
            is_outcome(*self, result),
    {
        let output = do_work(self.typ, self.seed);
        let (child_task, sibling_task) = self.get_next(output);
        (output, child_task, sibling_task)
    }

    /// The first child and the next sibling of a task whose output is
    /// `output`.
    ///
    /// The child comes from a stream seeded with `self.seed ^ output`: none
    /// at height 0, none where the number of children is drawn 0. The sibling
    /// comes from the stream of the row: none where the task is the last of
    /// its row.
    pub fn get_next(&self, output: u64) -> (next: (Option<Task>, Option<Task>))
        ensures
            next.0 == spec_child(*self, output),
            next.1 == spec_sibling(*self),
    {
        let task = if self.height == 0 {
            None
        } else {
            let seed = self.seed ^ output;
            let mut rng = seed_stream(seed);
            let num_tasks: usize = draw_through(&mut rng, 0, self.max_children);
            if num_tasks > 0 {
                Some(draw_task(rng, self.height - 1, self.max_children, 0, num_tasks))
            } else {
                None
            }
        };
        if self.max_siblings == 0 || self.current_sibling_idx >= self.max_siblings - 1 {
            (task, None)
        } else {
            let rng = clone_stream(&self.rng);
            (
                task,
                Some(
                    draw_task(
                        rng,
                        self.height,
                        self.max_children,
                        self.current_sibling_idx + 1,
                        self.max_siblings,
                    ),
                ),
            )
        }
    }

    /// The initial task of a run: the first of a row of up to 64 tasks
    /// generated from `seed`, at `starting_height`.
    pub fn generate_initial(seed: u64, starting_height: usize, max_children: usize) -> (task: Task)
        ensures
            task == spec_first(seed, starting_height, max_children, INITIAL_WIDTH),
            task.height == starting_height,
            task.max_children == max_children,
            task.current_sibling_idx == 0,
            task.max_siblings <= INITIAL_WIDTH,
    {
        generate_set(seed, starting_height, max_children, INITIAL_WIDTH)
    }
}

/// The places left in the row of `task`, its own included.
pub open spec fn places_left(task: Task) -> nat {
    if task.current_sibling_idx < task.max_siblings {
        (task.max_siblings - task.current_sibling_idx) as nat
    } else {
        0
    }
}

impl Job for Task {
    open spec fn kind(&self) -> TaskType {
        self.typ
    }

    open spec fn output(&self) -> u64 {
        spec_output(*self)
    }

    open spec fn successors(&self) -> Seq<Task> {
        both(spec_child(*self, spec_output(*self)), spec_sibling(*self))
    }

    open spec fn rank(&self) -> nat {
        self.height as nat * (self.max_children as nat + 1) + places_left(*self)
    }

    proof fn lemma_successors_sink(&self) {
        let output = spec_output(*self);
        lemma_next_shape(*self, output);
        let level = self.max_children as nat + 1;
        if let Some(child) = spec_child(*self, output) {
            assert(child.height as nat * level + level == self.height as nat * level)
                by (nonlinear_arith)
                requires
                    child.height + 1 == self.height,
            ;
        }
    }

    fn kind_of(&self) -> (kind: TaskType) {
        self.typ
    }

    fn perform(&self) -> (outcome: (u64, Vec<Task>)) {
        let (output, child, sibling) = self.execute();
        let mut successors: Vec<Task> = Vec::new();
        if let Some(task) = child {
            successors.push(task);
        }
        if let Some(task) = sibling {
            successors.push(task);
        }
        (output, successors)
    }
}

} // verus!
