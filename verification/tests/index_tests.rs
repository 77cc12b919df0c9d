use rustclaw::index::{
    growth_target, must_grow, room_after_growth, ApproximateIndex, IndexError, GROWTH_INCREMENT,
    INITIAL_CAPACITY,
};

fn unit(dimensions: usize, axis: usize) -> Vec<f32> {
    let mut v = vec![0.0f32; dimensions];
    v[axis % dimensions] = 1.0;
    v[(axis / dimensions + 1) % dimensions] += 0.001 * (axis as f32 + 1.0);
    v
}

#[test]
fn a_new_index_is_empty_and_has_its_initial_capacity() {
    let index = ApproximateIndex::new(4).unwrap();
    assert_eq!(index.size(), 0);
    assert!(index.capacity() >= INITIAL_CAPACITY);
    assert_eq!(index.dimensions(), 4);
    assert_eq!(index.inner().dimensions(), 4);
}

#[test]
fn an_unreserved_index_is_empty() {
    let index = ApproximateIndex::unreserved(8).unwrap();
    assert_eq!(index.size(), 0);
    assert_eq!(index.dimensions(), 8);
}

#[test]
fn reserve_never_lowers_the_capacity() {
    let mut index = ApproximateIndex::new(4).unwrap();
    assert_eq!(index.dimensions(), 4);
    let before = index.capacity();
    index.reserve(10).unwrap();
    assert!(index.capacity() >= before);
    index.reserve(before + 500).unwrap();
    assert!(index.capacity() >= before + 500);
    let grown = index.capacity();
    index.reserve(0).unwrap();
    assert!(index.capacity() >= grown);
    assert_eq!(index.size(), 0);
    assert_eq!(index.dimensions(), 4);
}

#[test]
fn ensure_room_leaves_a_roomy_index_alone() {
    let mut index = ApproximateIndex::new(4).unwrap();
    let before = index.capacity();
    index.ensure_room().unwrap();
    assert_eq!(index.capacity(), before);
    assert_eq!(index.size(), 0);
}

#[test]
fn ensure_room_grows_an_index_that_is_one_slot_from_full() {
    let mut index = ApproximateIndex::unreserved(4).unwrap();
    index.reserve(3).unwrap();
    let start = index.capacity();
    assert!(start >= 3);
    let mut key = 0u64;
    while index.size() + 1 < index.capacity() {
        index.ensure_room().unwrap();
        assert_eq!(index.capacity(), start);
        index.inner_mut().add(key, &unit(4, key as usize)).unwrap();
        key += 1;
    }
    assert_eq!(index.size() + 1, start);
    index.ensure_room().unwrap();
    assert!(index.capacity() >= start + GROWTH_INCREMENT);
    assert!(index.size() < index.capacity());
    index.inner_mut().add(key, &unit(4, key as usize)).unwrap();
    assert!(index.size() <= index.capacity());
}

#[test]
fn ensure_room_grows_an_index_without_any_slot() {
    let mut index = ApproximateIndex::unreserved(4).unwrap();
    let start = index.capacity();
    index.ensure_room().unwrap();
    assert!(index.capacity() >= start + GROWTH_INCREMENT);
}

#[test]
fn size_never_exceeds_capacity_over_many_inserts() {
    let mut index = ApproximateIndex::unreserved(3).unwrap();
    let mut last_capacity = index.capacity();
    for key in 0..2500u64 {
        index.ensure_room().unwrap();
        assert!(index.capacity() >= last_capacity);
        last_capacity = index.capacity();
        let v = vec![(key % 7) as f32 + 1.0, (key % 11) as f32 + 1.0, (key % 13) as f32 + 1.0];
        index.inner_mut().add(key, &v).unwrap();
        assert_eq!(index.size(), key as usize + 1);
        assert!(index.size() <= index.capacity());
    }
}

#[test]
fn search_finds_the_nearest_keys() {
    let mut index = ApproximateIndex::new(2).unwrap();
    index.ensure_room().unwrap();
    index.inner_mut().add(1, &[1.0f32, 0.0]).unwrap();
    index.ensure_room().unwrap();
    index.inner_mut().add(2, &[0.0f32, 1.0]).unwrap();
    index.ensure_room().unwrap();
    index.inner_mut().add(3, &[0.9f32, 0.1]).unwrap();
    let found = index.inner().search(&[1.0f32, 0.05], 2).unwrap();
    let mut keys = found.keys.clone();
    keys.sort();
    assert_eq!(keys, vec![1, 3]);
}

#[test]
fn an_index_error_has_words() {
    assert_eq!(IndexError::Full.describe(), "the index has no free slot");
    assert_eq!(IndexError::CapacityOverflow.describe(), "the index cannot grow any further");
    assert_eq!(IndexError::Backend("boom".to_string()).describe(), "boom");
}

#[test]
fn the_growth_rule_in_numbers() {
    assert!(must_grow(0, 0));
    assert!(must_grow(0, 1));
    assert!(!must_grow(0, 2));
    assert!(must_grow(998, 999));
    assert!(must_grow(999, 1000));
    assert!(!must_grow(998, 1000));
    assert!(must_grow(5, 3));
    assert!(must_grow(usize::MAX, usize::MAX));
    assert_eq!(growth_target(0), Some(1000));
    assert_eq!(growth_target(1000), Some(2000));
    assert_eq!(growth_target(4096), Some(5096));
    assert_eq!(growth_target(usize::MAX - 1000), Some(usize::MAX));
    assert_eq!(growth_target(usize::MAX - 999), None);
    assert!(room_after_growth(0, 1).is_ok());
    assert!(matches!(room_after_growth(1, 1), Err(IndexError::Full)));
    assert!(matches!(room_after_growth(2, 1), Err(IndexError::Full)));
}

#[test]
fn validate_checks_the_width_and_the_room() {
    let mut index = ApproximateIndex::new(4).unwrap();
    assert!(index.validate(4).is_ok());
    assert!(matches!(index.validate(5), Err(IndexError::WrongDimensions)));
    index.inner_mut().add(1, &unit(4, 0)).unwrap();
    assert!(index.validate(4).is_ok());
    assert_eq!(IndexError::WrongDimensions.describe(), "the index takes vectors of another length");
    assert_eq!(IndexError::Overfull.describe(), "the index holds more vectors than it has room for");
}

#[test]
fn a_saved_index_is_loaded_with_its_size() {
    let mut index = ApproximateIndex::new(3).unwrap();
    for key in 0..7u64 {
        index.ensure_room().unwrap();
        index.inner_mut().add(key, &[1.0f32 + key as f32, 2.0, 3.0]).unwrap();
    }
    let mut saved = vec![0u8; index.inner().serialized_length()];
    index.inner().save_to_buffer(&mut saved).unwrap();
    let mut loaded = ApproximateIndex::unreserved(3).unwrap();
    loaded.inner_mut().load_from_buffer(&saved).unwrap();
    assert_eq!(loaded.size(), 7);
    assert!(loaded.size() <= loaded.capacity());
    assert!(loaded.validate(3).is_ok());
    let before = loaded.capacity();
    loaded.ensure_room().unwrap();
    assert!(loaded.capacity() >= before);
    assert!(loaded.size() < loaded.capacity());
    loaded.inner_mut().add(100, &[9.0f32, 9.0, 9.0]).unwrap();
    assert_eq!(loaded.size(), 8);
}
