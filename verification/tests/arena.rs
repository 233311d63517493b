use jang::adt::arena::{Arena, CHUNK_SIZE};

#[test]
fn test_alloc_new_chunk() {
    let mut arena = Arena::default();
    let mut handles = Vec::new();
    for i in 0..(64 * CHUNK_SIZE) {
        handles.push(arena.allocate(i));
    }
    for (i, h) in handles.into_iter().enumerate() {
        assert_eq!(arena.get(h), &i);
    }
}

#[test]
fn handles_count_up_from_zero() {
    let mut arena = Arena::default();
    assert_eq!(arena.len(), 0);
    assert_eq!(arena.allocate("a"), 0);
    assert_eq!(arena.allocate("b"), 1);
    assert_eq!(arena.len(), 2);
    assert_eq!(*arena.get(0), "a");
    assert_eq!(*arena.get(1), "b");
}

#[test]
fn values_across_a_chunk_boundary_stay_put() {
    let mut arena = Arena::default();
    for i in 0..(CHUNK_SIZE + 1) {
        arena.allocate(i * 3);
    }
    assert_eq!(arena.len(), CHUNK_SIZE + 1);
    assert_eq!(*arena.get(CHUNK_SIZE - 1), (CHUNK_SIZE - 1) * 3);
    assert_eq!(*arena.get(CHUNK_SIZE), CHUNK_SIZE * 3);
    assert_eq!(*arena.get(0), 0);
}
