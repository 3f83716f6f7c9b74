use task_tree::accumulator::Report;
use task_tree::run::{drive_bounded, drive_serial, run_bounded, run_serial};
use task_tree::scheduler::Scheduler;
use task_tree::task::{Task, TaskType};

fn count(tasks: &[Task], kind: TaskType) -> usize {
    tasks.iter().filter(|t| t.typ == kind).count()
}

fn drive_in_waves(initial: Vec<Task>) -> Report {
    let mut engine = Scheduler::new(initial);
    while !engine.is_done() {
        let mut wave = Vec::new();
        while let Some(task) = engine.submit().unwrap() {
            wave.push(task);
        }
        while let Some(task) = wave.pop() {
            let (output, children) = task.execute();
            engine.on_complete(output, children).unwrap();
        }
    }
    engine.snapshot().unwrap()
}

#[test]
fn seed_42_at_height_0_folds_the_initial_batch() {
    let initial = Task::generate_initial(42, 0, 5);
    assert!(initial.len() <= 64);
    let mut engine = Scheduler::new(initial.clone());
    let mut aggregate = 0u64;
    while let Some(task) = engine.submit().unwrap() {
        assert_eq!(task.height, 0);
        let (output, children) = task.execute();
        assert!(children.is_empty());
        aggregate ^= output;
        engine.on_complete(output, children).unwrap();
    }
    assert!(engine.is_done());
    let report = engine.snapshot().unwrap();
    assert_eq!(report.aggregate, aggregate);
    assert_eq!(report.hash_count + report.derive_count + report.random_count, initial.len());
    assert_eq!(report.hash_count, count(&initial, TaskType::Hash));
    assert_eq!(report.derive_count, count(&initial, TaskType::Derive));
    assert_eq!(report.random_count, count(&initial, TaskType::Random));
}

#[test]
fn seed_1_with_bound_0_collapses_to_the_initial_batch() {
    let initial = Task::generate_initial(1, 3, 0);
    println!("initial {}", initial.len());
    for task in &initial {
        assert_eq!(task.height, 3);
        assert_eq!(task.max_children, 0);
    }
    let report = run_serial(1, 3, 0).unwrap();
    assert_eq!(report.hash_count + report.derive_count + report.random_count, initial.len());
    assert_eq!(report.hash_count, count(&initial, TaskType::Hash));
    assert_eq!(report.derive_count, count(&initial, TaskType::Derive));
    assert_eq!(report.random_count, count(&initial, TaskType::Random));
}

#[test]
fn serial_run_of_seed_42_has_known_totals() {
    let expected = Report {
        aggregate: 12668115460826147377,
        hash_count: 8,
        derive_count: 13,
        random_count: 12,
    };
    assert_eq!(run_serial(42, 0, 5), Ok(expected));
}

#[test]
fn serial_run_of_seed_3_has_known_totals() {
    let expected = Report {
        aggregate: 14307735219361256523,
        hash_count: 0,
        derive_count: 3,
        random_count: 2,
    };
    assert_eq!(run_serial(3, 1, 1), Ok(expected));
}

#[test]
fn serial_and_bounded_runs_agree() {
    let serial = run_serial(3, 1, 1).unwrap();
    assert_eq!(run_bounded(3, 1, 1, 1), Ok(serial));
    assert_eq!(run_bounded(3, 1, 1, 4), Ok(serial));
    assert_eq!(run_bounded(3, 1, 1, usize::MAX), Ok(serial));
}

#[test]
fn repeated_runs_agree() {
    assert_eq!(run_serial(26, 1, 2), run_serial(26, 1, 2));
}

#[test]
fn drivers_run_what_they_are_given() {
    let initial = Task::generate_initial(3, 1, 1);
    let serial = run_serial(3, 1, 1);
    assert_eq!(drive_serial(initial.clone()), serial);
    assert_eq!(drive_bounded(initial, 2), serial);
}

#[test]
fn empty_batch_gives_empty_totals() {
    let zero = Report { aggregate: 0, hash_count: 0, derive_count: 0, random_count: 0 };
    assert_eq!(drive_serial(Vec::<Task>::new()), Ok(zero));
    assert_eq!(drive_bounded(Vec::<Task>::new(), 3), Ok(zero));
}

#[test]
fn a_run_takes_two_steps_for_each_task() {
    let mut engine = Scheduler::new(Task::generate_initial(3, 1, 1));
    let mut steps = 0usize;
    let mut tasks = 0usize;
    let mut deepest = 0usize;
    while let Some(task) = engine.submit().unwrap() {
        steps += 1;
        tasks += 1;
        assert!(task.height <= 1);
        deepest = deepest.max(1 - task.height);
        let (output, children) = task.execute();
        for child in &children {
            assert_eq!(child.height + 1, task.height);
        }
        engine.on_complete(output, children).unwrap();
        steps += 1;
    }
    assert!(engine.is_done());
    assert_eq!(steps, 2 * tasks);
    assert_eq!(tasks, 5);
    assert_eq!(deepest, 1);
    let report = engine.snapshot().unwrap();
    assert_eq!(report.hash_count + report.derive_count + report.random_count, tasks);
}

#[test]
fn waves_agree_with_the_serial_run() {
    let serial = run_serial(3, 1, 1).unwrap();
    assert_eq!(drive_in_waves(Task::generate_initial(3, 1, 1)), serial);
}
