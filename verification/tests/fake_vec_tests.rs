use relay_core::FakeVec;

#[test]
fn it_generates_external_indices() {
    let mut store: FakeVec<u8> = FakeVec::new(8, 0);
    for _ in 0..502 {
        store.push(0);
    }

    assert_eq!(store.to_external_index(5), store.latest());
    assert_eq!(store.to_external_index(6), store.latest() - 7);
    assert_eq!(store.to_external_index(7), store.latest() - 6);
    assert_eq!(store.to_external_index(0), store.latest() - 5);
    assert_eq!(store.to_external_index(1), store.latest() - 4);
    assert_eq!(store.to_external_index(2), store.latest() - 3);
    assert_eq!(store.to_external_index(3), store.latest() - 2);
    assert_eq!(store.to_external_index(4), store.latest() - 1);
}

#[test]
fn push_returns_increasing_external_indices() {
    let mut store: FakeVec<u16> = FakeVec::new(4, 0);
    for i in 0..10u16 {
        assert_eq!(store.push(i), i as usize);
    }
}

#[test]
fn overflow_drops_only_the_oldest_index() {
    // pushing capacity + 1 items makes external index 0 unreachable while
    // indices 1..=capacity remain reachable
    let capacity: usize = 8;
    let mut store: FakeVec<u32> = FakeVec::new(capacity, 0);
    for i in 0..(capacity as u32 + 1) {
        store.push(100 + i);
    }
    assert!(store.get(0).is_none());
    for i in 1..=capacity {
        assert_eq!(*store.get(i).unwrap(), 100 + i as u32);
    }
    assert!(store.get(capacity + 1).is_none());
}

#[test]
fn get_distinguishes_unretained_from_absent() {
    let mut store: FakeVec<u8> = FakeVec::new(3, 0);
    store.push(7);
    assert_eq!(*store.get(0).unwrap(), 7);
    assert!(store.get(1).is_none());
    assert!(store.get(2).is_none());
}

#[test]
fn position_maps_physical_matches_to_external_indices() {
    let mut store: FakeVec<u8> = FakeVec::new(4, 0);
    for v in [10u8, 20, 30, 40, 50] {
        store.push(v);
    }
    // store now retains indices 1..=4 holding 20, 30, 40, 50
    let hits = |needle: u8| store.position(&move |t: u8| t == needle);
    assert_eq!(hits(50), Some(4));
    assert_eq!(hits(20), Some(1));
    assert_eq!(hits(10), None);
}

#[test]
fn find_locates_equal_items() {
    let mut store: FakeVec<u8> = FakeVec::new(4, 0);
    store.push(5);
    store.push(6);
    assert_eq!(store.find(&6), Some(1));
    assert_eq!(store.find(&9), None);
}

#[test]
fn from_parts_restores_the_retained_window() {
    let mut source: FakeVec<u8> = FakeVec::new(4, 0);
    for v in [1u8, 2, 3, 4, 5, 6] {
        source.push(v);
    }
    // snapshot the physical slots by reading the retained window
    let mut slots = vec![0u8; 4];
    for i in 2..6usize {
        slots[i % 4] = *source.get(i).unwrap();
    }
    let restored: FakeVec<u8> = FakeVec::from_parts(slots, 6);
    assert!(restored.get(1).is_none());
    for i in 2..6usize {
        assert_eq!(restored.get(i), source.get(i));
    }
}
