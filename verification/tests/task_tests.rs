use task_tree::task::{generate_set, Task, TaskType};
use task_tree::work::{copy_range, read_u64_le};

fn task(typ: TaskType, seed: u64, height: usize, max_children: usize) -> Task {
    Task { typ, seed, height, max_children }
}

#[test]
fn read_u64_le_reads_least_significant_byte_first() {
    let bytes: Vec<u8> = vec![0xff, 0x01, 0x02, 0x03, 0x04, 0x05, 0x06, 0x07, 0x08, 0xee];
    assert_eq!(read_u64_le(&bytes, 1), 0x0807_0605_0403_0201);
    assert_eq!(read_u64_le(&bytes, 0), 0x0706_0504_0302_01ff);
    assert_eq!(read_u64_le(&bytes, 2), 0xee08_0706_0504_0302);
}

#[test]
fn read_u64_le_agrees_with_std() {
    let bytes: Vec<u8> = (0u8..40).map(|b| b.wrapping_mul(37).wrapping_add(11)).collect();
    for offset in 0..=32usize {
        let mut word = [0u8; 8];
        word.copy_from_slice(&bytes[offset..offset + 8]);
        assert_eq!(read_u64_le(&bytes, offset), u64::from_le_bytes(word));
    }
}

#[test]
fn copy_range_copies_the_half_open_range() {
    let bytes: Vec<u8> = vec![10, 11, 12, 13, 14, 15];
    assert_eq!(copy_range(&bytes, 0, 6), bytes);
    assert_eq!(copy_range(&bytes, 2, 5), vec![12, 13, 14]);
    assert_eq!(copy_range(&bytes, 3, 3), Vec::<u8>::new());
}

#[test]
fn kinds_stand_in_the_order_hash_derive_random() {
    assert_eq!(TaskType::from_index(0), TaskType::Hash);
    assert_eq!(TaskType::from_index(1), TaskType::Derive);
    assert_eq!(TaskType::from_index(2), TaskType::Random);
}

#[test]
fn generate_set_is_a_function_of_its_arguments() {
    let first = generate_set(42, 3, 5, 64);
    let second = generate_set(42, 3, 5, 64);
    assert_eq!(first, second);
    let other = generate_set(43, 3, 5, 64);
    assert_ne!(first, other);
}

#[test]
fn generate_set_passes_height_and_bound_through() {
    let tasks = generate_set(42, 7, 9, 64);
    assert!(tasks.len() <= 64);
    assert!(!tasks.is_empty());
    for t in &tasks {
        assert_eq!(t.height, 7);
        assert_eq!(t.max_children, 9);
    }
}

#[test]
fn generate_set_with_no_room_is_empty() {
    for seed in 0..50u64 {
        assert!(generate_set(seed, 3, 5, 0).is_empty());
    }
}

#[test]
fn generate_set_respects_the_count_bound() {
    for seed in 0..200u64 {
        assert!(generate_set(seed, 1, 2, 3).len() <= 3);
    }
}

#[test]
fn generate_initial_is_generate_set_of_width_64() {
    for seed in [0u64, 1, 42, u64::MAX] {
        assert_eq!(Task::generate_initial(seed, 4, 6), generate_set(seed, 4, 6, 64));
    }
}

#[test]
fn expand_at_height_zero_is_empty() {
    let t = task(TaskType::Hash, 99, 0, 5);
    for output in [0u64, 1, 12345, u64::MAX] {
        assert!(t.expand(output).is_empty());
    }
}

#[test]
fn expand_generates_from_seed_xor_output_one_level_down() {
    let t = task(TaskType::Random, 0x1234_5678_9abc_def0, 4, 6);
    for output in [0u64, 7, 0xffff_0000_ffff_0000] {
        let children = t.expand(output);
        assert_eq!(children, generate_set(t.seed ^ output, 3, 6, 6));
        assert!(children.len() <= 6);
        for c in &children {
            assert_eq!(c.height, 3);
            assert_eq!(c.max_children, 6);
        }
    }
}

#[test]
fn expand_with_bound_zero_is_empty_at_every_height() {
    for height in 0..5usize {
        let t = task(TaskType::Derive, 1, height, 0);
        for output in 0..20u64 {
            assert!(t.expand(output).is_empty());
        }
    }
}

#[test]
fn seed_42_starts_with_33_tasks() {
    let tasks = Task::generate_initial(42, 0, 5);
    assert_eq!(tasks.len(), 33);
}
