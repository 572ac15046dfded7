use std::collections::HashSet;

use rest_model::oid::{IdGenerator, ObjectId};

#[test]
fn test_to_hex_known_bytes() {
    let id = ObjectId::from_bytes([
        0x67, 0xc7, 0x07, 0xbc, 0x69, 0x8b, 0x8e, 0x52, 0x9f, 0x99, 0x46, 0x70,
    ]);
    assert_eq!(id.to_hex(), "67c707bc698b8e529f994670");
}

#[test]
fn test_from_parts_layout() {
    let id = ObjectId::from_parts(
        0x67c707bc,
        [0x69, 0x8b, 0x8e, 0x52, 0x9f],
        [0x99, 0x46, 0x70],
    );
    assert_eq!(id.to_hex(), "67c707bc698b8e529f994670");
}

#[test]
fn test_gen_count_wraps_at_u24() {
    let mut gen = IdGenerator::from_parts([0, 0, 0, 0, 0], 0xFF_FFFF);
    assert_eq!(gen.gen_count(), [0xFF, 0xFF, 0xFF]);
    let mut gen = IdGenerator::from_parts([0, 0, 0, 0, 0], 0x100_0000);
    assert_eq!(gen.gen_count(), [0x00, 0x00, 0x00]);
    let mut gen = IdGenerator::from_parts([0, 0, 0, 0, 0], 5);
    assert_eq!(gen.gen_count(), [0x00, 0x00, 0x05]);
    assert_eq!(gen.gen_count(), [0x00, 0x00, 0x06]);
}

#[test]
fn test_ten_thousand_ids_distinct() {
    let mut gen = IdGenerator::new();
    let mut seen: HashSet<String> = HashSet::new();
    for _ in 0..10_000 {
        let id = ObjectId::new(&mut gen);
        seen.insert(id.to_hex());
    }
    assert_eq!(seen.len(), 10_000);
}

#[test]
fn test_ids_distinct_near_counter_wrap() {
    let mut gen = IdGenerator::from_parts([7, 7, 7, 7, 7], 0xFF_FFFE);
    let mut seen: HashSet<String> = HashSet::new();
    for _ in 0..100 {
        let id = ObjectId::new(&mut gen);
        seen.insert(id.to_hex());
    }
    assert_eq!(seen.len(), 100);
}

#[test]
fn test_different_process_bytes_give_different_ids() {
    let a = ObjectId::from_parts(100, [1, 2, 3, 4, 5], [0, 0, 1]);
    let b = ObjectId::from_parts(100, [1, 2, 3, 4, 6], [0, 0, 1]);
    assert_ne!(a.to_hex(), b.to_hex());
}

#[test]
fn test_hex_ids_time_ordered() {
    let early = ObjectId::from_parts(1000, [9, 9, 9, 9, 9], [0xFF, 0xFF, 0xFF]);
    let late = ObjectId::from_parts(1001, [0, 0, 0, 0, 0], [0, 0, 0]);
    assert!(early.to_hex() < late.to_hex());
}
