use oddio::handoff::Handoff;

#[test]
fn inserted_item_invisible_until_update() {
    let mut s: Handoff<u32> = Handoff::new();
    s.insert(7);
    assert_eq!(s.len(), 0);
    assert_eq!(s.pending_len(), 1);
    s.update();
    assert_eq!(s.len(), 1);
    assert_eq!(s.pending_len(), 0);
    assert_eq!(*s.get(0), 7);
    s.update();
    assert_eq!(s.len(), 1);
}

#[test]
fn update_merges_every_pending_item_once() {
    let mut s: Handoff<u32> = Handoff::new();
    s.insert(1);
    s.update();
    s.insert(2);
    s.insert(3);
    assert_eq!(s.len(), 1);
    s.update();
    let mut seen: Vec<u32> = (0..s.len()).map(|i| *s.get(i)).collect();
    seen.sort();
    assert_eq!(seen, vec![1, 2, 3]);
}

#[test]
fn remove_moves_last_into_slot() {
    let mut s: Handoff<u32> = Handoff::new();
    for x in [10, 20, 30, 40] {
        s.insert(x);
    }
    s.update();
    assert_eq!(s.remove(1), 20);
    assert_eq!(s.len(), 3);
    assert_eq!(*s.get(0), 10);
    assert_eq!(*s.get(1), 40);
    assert_eq!(*s.get(2), 30);
    assert_eq!(s.remove(2), 30);
    assert_eq!(s.len(), 2);
}

#[test]
fn freed_slot_is_taken_again() {
    let mut s: Handoff<u32> = Handoff::new();
    s.insert(1);
    s.insert(2);
    s.update();
    s.remove(0);
    s.insert(3);
    s.update();
    assert_eq!(s.len(), 2);
}

#[test]
fn get_mut_and_pending_mut_change_in_place() {
    let mut s: Handoff<u32> = Handoff::new();
    s.insert(1);
    s.update();
    s.insert(5);
    *s.get_mut(0) = 11;
    *s.pending_mut(0) = 55;
    s.update();
    assert_eq!(*s.get(0), 11);
    assert_eq!(*s.get(1), 55);
}
