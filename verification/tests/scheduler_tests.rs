use task_tree::accumulator::{Accumulator, Report, RunError};
use task_tree::scheduler::{RunState, Scheduler};
use task_tree::task::{Task, TaskType};

fn task(typ: TaskType, seed: u64, height: usize, max_children: usize) -> Task {
    Task { typ, seed, height, max_children }
}

fn three() -> Vec<Task> {
    vec![
        task(TaskType::Hash, 1, 0, 0),
        task(TaskType::Random, 2, 0, 0),
        task(TaskType::Random, 3, 0, 0),
    ]
}

#[test]
fn accumulator_starts_empty() {
    let acc = Accumulator::new();
    let zero = Report { aggregate: 0, hash_count: 0, derive_count: 0, random_count: 0 };
    assert_eq!(acc.snapshot(), zero);
}

#[test]
fn fold_is_xor() {
    let mut acc = Accumulator::new();
    acc.fold(0b1100);
    assert_eq!(acc.snapshot().aggregate, 0b1100);
    acc.fold(0b1010);
    assert_eq!(acc.snapshot().aggregate, 0b0110);
    acc.fold(0b0110);
    assert_eq!(acc.snapshot().aggregate, 0);
    assert_eq!(acc.snapshot().hash_count, 0);
    assert_eq!(acc.snapshot().derive_count, 0);
    assert_eq!(acc.snapshot().random_count, 0);
}

#[test]
fn fold_does_not_depend_on_order() {
    let outputs = [0xdead_beef_u64, 17, u64::MAX, 0, 0x0123_4567_89ab_cdef];
    let mut forward = Accumulator::new();
    for o in outputs.iter() {
        forward.fold(*o);
    }
    let mut backward = Accumulator::new();
    for o in outputs.iter().rev() {
        backward.fold(*o);
    }
    assert_eq!(forward.snapshot(), backward.snapshot());
    assert_eq!(forward.snapshot().aggregate, 0xdead_beef ^ 17 ^ u64::MAX ^ 0x0123_4567_89ab_cdef);
}

#[test]
fn tally_counts_each_kind_apart() {
    let mut acc = Accumulator::new();
    assert_eq!(acc.tally(TaskType::Hash), Ok(()));
    assert_eq!(acc.tally(TaskType::Random), Ok(()));
    assert_eq!(acc.tally(TaskType::Random), Ok(()));
    let report = acc.snapshot();
    assert_eq!(report, Report { aggregate: 0, hash_count: 1, derive_count: 0, random_count: 2 });
    assert_eq!(report.count_of(TaskType::Hash), 1);
    assert_eq!(report.count_of(TaskType::Derive), 0);
    assert_eq!(report.count_of(TaskType::Random), 2);
}

#[test]
fn tally_fails_on_a_full_count_and_changes_nothing() {
    let full = Report { aggregate: 9, hash_count: 4, derive_count: usize::MAX, random_count: 6 };
    let mut acc = Accumulator::with_totals(full);
    assert!(acc.has_room(TaskType::Hash));
    assert!(!acc.has_room(TaskType::Derive));
    assert_eq!(acc.tally(TaskType::Derive), Err(RunError::CounterOverflow));
    assert_eq!(acc.snapshot(), full);
    assert_eq!(acc.tally(TaskType::Hash), Ok(()));
    assert_eq!(acc.snapshot().hash_count, 5);
}

#[test]
fn tally_reaches_the_maximum() {
    let nearly = Report { aggregate: 0, hash_count: 0, derive_count: 0, random_count: usize::MAX - 1 };
    let mut acc = Accumulator::with_totals(nearly);
    assert_eq!(acc.tally(TaskType::Random), Ok(()));
    assert_eq!(acc.snapshot().random_count, usize::MAX);
    assert_eq!(acc.tally(TaskType::Random), Err(RunError::CounterOverflow));
}

#[test]
fn new_engine_has_everything_pending() {
    let engine = Scheduler::new(three());
    assert_eq!(engine.pending_len(), 3);
    assert_eq!(engine.in_flight_count(), 0);
    assert_eq!(engine.state(), RunState::Active);
    assert!(!engine.is_done());
    assert_eq!(engine.snapshot(), None);
}

#[test]
fn empty_engine_is_complete_at_once() {
    let mut engine: Scheduler<Task> = Scheduler::new(Vec::new());
    assert!(engine.is_done());
    assert_eq!(engine.state(), RunState::Complete);
    let zero = Report { aggregate: 0, hash_count: 0, derive_count: 0, random_count: 0 };
    assert_eq!(engine.snapshot(), Some(zero));
    assert_eq!(engine.submit(), Ok(None));
    assert!(engine.is_done());
}

#[test]
fn submit_hands_out_in_order_and_counts() {
    let mut engine = Scheduler::new(three());
    assert_eq!(engine.submit(), Ok(Some(task(TaskType::Hash, 1, 0, 0))));
    assert_eq!(engine.pending_len(), 2);
    assert_eq!(engine.in_flight_count(), 1);
    assert_eq!(engine.submit(), Ok(Some(task(TaskType::Random, 2, 0, 0))));
    assert_eq!(engine.submit(), Ok(Some(task(TaskType::Random, 3, 0, 0))));
    assert_eq!(engine.submit(), Ok(None));
    assert_eq!(engine.pending_len(), 0);
    assert_eq!(engine.in_flight_count(), 3);
    assert_eq!(engine.state(), RunState::Draining);
    assert!(!engine.is_done());
    assert_eq!(engine.snapshot(), None);
}

#[test]
fn on_complete_folds_and_appends_children() {
    let mut engine = Scheduler::new(three());
    engine.submit().unwrap();
    let kids = vec![task(TaskType::Derive, 10, 0, 0), task(TaskType::Hash, 11, 0, 0)];
    assert_eq!(engine.on_complete(0xf0, kids), Ok(()));
    assert_eq!(engine.in_flight_count(), 0);
    assert_eq!(engine.pending_len(), 4);
    assert_eq!(engine.state(), RunState::Active);
    assert_eq!(engine.submit(), Ok(Some(task(TaskType::Random, 2, 0, 0))));
    assert_eq!(engine.submit(), Ok(Some(task(TaskType::Random, 3, 0, 0))));
    assert_eq!(engine.submit(), Ok(Some(task(TaskType::Derive, 10, 0, 0))));
    assert_eq!(engine.submit(), Ok(Some(task(TaskType::Hash, 11, 0, 0))));
    assert_eq!(engine.submit(), Ok(None));
    for output in [0x0f_u64, 0x100, 0x200, 0x400] {
        assert_eq!(engine.on_complete(output, Vec::new()), Ok(()));
    }
    assert!(engine.is_done());
    assert_eq!(engine.state(), RunState::Complete);
    assert_eq!(
        engine.snapshot(),
        Some(Report { aggregate: 0x7ff, hash_count: 2, derive_count: 1, random_count: 2 })
    );
}

#[test]
fn completion_without_a_task_in_flight_is_refused() {
    let mut engine = Scheduler::new(three());
    assert_eq!(engine.on_complete(5, Vec::new()), Err(RunError::NotInFlight));
    assert_eq!(engine.pending_len(), 3);
    assert_eq!(engine.in_flight_count(), 0);
    engine.submit().unwrap();
    assert_eq!(engine.on_complete(5, Vec::new()), Ok(()));
    assert_eq!(engine.on_complete(5, Vec::new()), Err(RunError::NotInFlight));
    assert_eq!(engine.pending_len(), 2);
}

#[test]
fn completion_after_the_end_is_refused() {
    let mut engine = Scheduler::new(vec![task(TaskType::Hash, 1, 0, 0)]);
    engine.submit().unwrap();
    assert_eq!(engine.on_complete(3, Vec::new()), Ok(()));
    assert!(engine.is_done());
    let before = engine.snapshot();
    assert_eq!(engine.on_complete(4, vec![task(TaskType::Hash, 2, 0, 0)]), Err(RunError::AlreadyComplete));
    assert!(engine.is_done());
    assert_eq!(engine.snapshot(), before);
    assert_eq!(engine.pending_len(), 0);
}

#[test]
fn draining_turns_active_when_children_arrive() {
    let mut engine = Scheduler::new(vec![task(TaskType::Hash, 1, 1, 1)]);
    engine.submit().unwrap();
    assert_eq!(engine.state(), RunState::Draining);
    engine.on_complete(1, vec![task(TaskType::Random, 2, 0, 1)]).unwrap();
    assert_eq!(engine.state(), RunState::Active);
    assert!(!engine.is_done());
}

#[test]
fn counts_add_up_to_the_tasks_handed_out() {
    let mut engine = Scheduler::new(three());
    let mut handed_out = 0usize;
    let mut reported = 0usize;
    while let Ok(Some(_)) = engine.submit() {
        handed_out += 1;
        if handed_out == 2 {
            engine.on_complete(1, vec![task(TaskType::Derive, 8, 0, 0)]).unwrap();
            reported += 1;
        }
        assert_eq!(engine.in_flight_count() as usize, handed_out - reported);
    }
    assert_eq!(handed_out, 4);
    while engine.in_flight_count() > 0 {
        engine.on_complete(0, Vec::new()).unwrap();
    }
    let report = engine.snapshot().unwrap();
    assert_eq!(report.hash_count + report.derive_count + report.random_count, handed_out);
    assert_eq!(report.hash_count, 1);
    assert_eq!(report.derive_count, 1);
    assert_eq!(report.random_count, 2);
}
