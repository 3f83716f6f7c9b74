use rand::{Rng, SeedableRng};
use rand_chacha::ChaCha20Rng;
use task_tree::accumulator::Report;
use task_tree::chain::{draw_task, generate_set, Task};
use task_tree::run::{drive_bounded, drive_serial};
use task_tree::scheduler::Scheduler;
use task_tree::task::TaskType;
use task_tree::work::do_work;

const KINDS: [TaskType; 3] = [TaskType::Hash, TaskType::Derive, TaskType::Random];

fn first_by_hand(seed: u64, height: usize, max_children: usize, max_num: usize) -> Task {
    let mut rng = ChaCha20Rng::seed_from_u64(seed);
    let num_tasks: usize = rng.gen_range(0..=max_num);
    Task {
        typ: KINDS[rng.gen_range(0..KINDS.len())],
        seed: rng.gen(),
        height,
        max_children,
        current_sibling_idx: 0,
        max_siblings: num_tasks,
        rng,
    }
}

fn next_by_hand(task: &Task, output: u64) -> (Option<Task>, Option<Task>) {
    let child = if task.height == 0 {
        None
    } else {
        let first = first_by_hand(task.seed ^ output, task.height - 1, task.max_children, task.max_children);
        if first.max_siblings > 0 {
            Some(first)
        } else {
            None
        }
    };
    let sibling = if task.current_sibling_idx + 1 >= task.max_siblings {
        None
    } else {
        let mut rng = task.rng.clone();
        Some(Task {
            typ: KINDS[rng.gen_range(0..KINDS.len())],
            seed: rng.gen(),
            height: task.height,
            max_children: task.max_children,
            current_sibling_idx: task.current_sibling_idx + 1,
            max_siblings: task.max_siblings,
            rng,
        })
    };
    (child, sibling)
}

#[test]
fn first_task_matches_the_stream() {
    for seed in [0u64, 1, 42, u64::MAX] {
        for max_num in [0usize, 1, 5, 64] {
            assert_eq!(generate_set(seed, 3, 5, max_num), first_by_hand(seed, 3, 5, max_num));
        }
    }
}

#[test]
fn initial_task_is_the_first_of_a_row_of_up_to_64() {
    for seed in [0u64, 1, 42] {
        let task = Task::generate_initial(seed, 4, 6);
        assert_eq!(task, first_by_hand(seed, 4, 6, 64));
        assert_eq!(task.height, 4);
        assert_eq!(task.max_children, 6);
        assert_eq!(task.current_sibling_idx, 0);
        assert!(task.max_siblings <= 64);
    }
}

#[test]
fn initial_task_is_there_even_for_an_empty_row() {
    let task = generate_set(9, 2, 3, 0);
    assert_eq!(task.max_siblings, 0);
    let (child, sibling) = task.get_next(5);
    assert_eq!(sibling, None);
    assert_eq!(child, next_by_hand(&task, 5).0);
}

#[test]
fn draw_task_takes_kind_then_seed_and_keeps_the_stream() {
    let rng = ChaCha20Rng::seed_from_u64(17);
    let mut by_hand = rng.clone();
    let typ = KINDS[by_hand.gen_range(0..KINDS.len())];
    let seed: u64 = by_hand.gen();
    let task = draw_task(rng, 2, 3, 4, 9);
    assert_eq!(task.typ, typ);
    assert_eq!(task.seed, seed);
    assert_eq!(task.height, 2);
    assert_eq!(task.max_children, 3);
    assert_eq!(task.current_sibling_idx, 4);
    assert_eq!(task.max_siblings, 9);
    assert_eq!(task.rng, by_hand);
}

#[test]
fn get_next_matches_the_streams() {
    for seed in [0u64, 3, 42] {
        let task = Task::generate_initial(seed, 2, 4);
        for output in [0u64, 1, 0xdead_beef] {
            assert_eq!(task.get_next(output), next_by_hand(&task, output));
        }
    }
}

#[test]
fn a_row_ends_after_its_last_place() {
    let mut task = Task::generate_initial(42, 0, 5);
    let length = task.max_siblings;
    assert_eq!(length, 33);
    let mut seen = 1usize;
    loop {
        let (child, sibling) = task.get_next(0);
        assert_eq!(child, None);
        match sibling {
            Some(next) => {
                assert_eq!(next.current_sibling_idx, task.current_sibling_idx + 1);
                assert_eq!(next.max_siblings, length);
                assert_eq!(next.height, 0);
                task = next;
                seen += 1;
            }
            None => break,
        }
    }
    assert_eq!(seen, length);
}

#[test]
fn children_stand_one_level_down_at_the_head_of_their_row() {
    let task = Task::generate_initial(5, 3, 6);
    let mut found = 0;
    for output in 0..40u64 {
        if let (Some(child), _) = task.get_next(output) {
            assert_eq!(child.height, 2);
            assert_eq!(child.max_children, 6);
            assert_eq!(child.current_sibling_idx, 0);
            assert!(0 < child.max_siblings && child.max_siblings <= 6);
            found += 1;
        }
    }
    assert!(found > 0);
}

#[test]
fn no_children_with_bound_zero() {
    let task = Task::generate_initial(1, 3, 0);
    for output in 0..40u64 {
        assert_eq!(task.get_next(output).0, None);
    }
}

#[test]
fn execute_does_the_work_and_gets_next() {
    let task = Task::generate_initial(8, 1, 2);
    let (output, child, sibling) = task.execute();
    assert_eq!(output, do_work(task.typ, task.seed));
    assert_eq!((child, sibling), next_by_hand(&task, output));
}

#[test]
fn execute_twice_gives_the_same() {
    let task = Task::generate_initial(8, 1, 2);
    assert_eq!(task.execute(), task.clone().execute());
}

#[test]
fn clone_keeps_every_field() {
    let task = Task::generate_initial(77, 3, 4);
    let copy = task.clone();
    assert_eq!(copy, task);
    assert_eq!(copy.get_next(3), task.get_next(3));
}

fn drive_by_hand(initial: Task) -> Report {
    let mut stack = vec![initial];
    let mut report = Report { aggregate: 0, hash_count: 0, derive_count: 0, random_count: 0 };
    while let Some(task) = stack.pop() {
        match task.typ {
            TaskType::Hash => report.hash_count += 1,
            TaskType::Derive => report.derive_count += 1,
            TaskType::Random => report.random_count += 1,
        }
        let (output, child, sibling) = task.execute();
        report.aggregate ^= output;
        stack.extend(sibling);
        stack.extend(child);
    }
    report
}

#[test]
fn chained_runs_agree_across_schedules() {
    let initial = Task::generate_initial(3, 1, 1);
    assert_eq!(initial.max_siblings, 3);
    let by_hand = drive_by_hand(initial.clone());
    assert!(by_hand.hash_count + by_hand.derive_count + by_hand.random_count >= 3);
    assert_eq!(drive_serial(vec![initial.clone()]), Ok(by_hand));
    assert_eq!(drive_bounded(vec![initial], 3), Ok(by_hand));
}

#[test]
fn engine_takes_chained_tasks() {
    let initial = Task::generate_initial(3, 0, 1);
    let row = initial.max_siblings.max(1);
    let mut engine = Scheduler::new(vec![initial]);
    let mut seen = 0usize;
    while let Some(task) = engine.submit().unwrap() {
        seen += 1;
        let (child, sibling) = task.get_next(0);
        let mut next = Vec::new();
        next.extend(child);
        next.extend(sibling);
        engine.on_complete(1, next).unwrap();
    }
    assert!(engine.is_done());
    assert_eq!(seen, row);
    let report = engine.snapshot().unwrap();
    assert_eq!(report.hash_count + report.derive_count + report.random_count, row);
    assert_eq!(report.aggregate, (row % 2) as u64);
}
