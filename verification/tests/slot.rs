use frame_server::slot::FrameSlot;

#[test]
fn slot_starts_empty() {
    let slot = FrameSlot::new();
    assert_eq!(slot.read_latest(), None);
}

#[test]
fn publish_then_read_returns_the_frame() {
    let mut slot = FrameSlot::new();
    slot.publish(vec![10, 20, 30]);
    assert_eq!(slot.read_latest(), Some(vec![10, 20, 30]));
}

#[test]
fn second_publish_replaces_the_first() {
    let mut slot = FrameSlot::new();
    let a: Vec<u8> = vec![1; 100];
    let b: Vec<u8> = vec![2; 7];
    slot.publish(a.clone());
    slot.publish(b.clone());
    let seen = slot.read_latest().unwrap();
    assert_eq!(seen, b);
    assert_ne!(seen, a);
    assert_eq!(seen.len(), 7);
}

#[test]
fn empty_frame_is_a_frame() {
    let mut slot = FrameSlot::new();
    slot.publish(Vec::new());
    assert_eq!(slot.read_latest(), Some(Vec::new()));
}

#[test]
fn reading_does_not_change_the_slot() {
    let mut slot = FrameSlot::new();
    slot.publish(vec![5, 6]);
    assert_eq!(slot.read_latest(), Some(vec![5, 6]));
    assert_eq!(slot.read_latest(), Some(vec![5, 6]));
}

#[test]
fn reader_gets_a_copy_of_its_own() {
    let mut slot = FrameSlot::new();
    slot.publish(vec![1, 2, 3]);
    let mut copy = slot.read_latest().unwrap();
    copy[0] = 99;
    copy.push(4);
    assert_eq!(slot.read_latest(), Some(vec![1, 2, 3]));
}

#[test]
fn racing_publishes_leave_one_whole_frame() {
    let a: Vec<u8> = vec![0xAA; 32];
    let b: Vec<u8> = vec![0xBB; 48];
    for a_first in [true, false] {
        let mut slot = FrameSlot::new();
        if a_first {
            slot.publish(a.clone());
            slot.publish(b.clone());
        } else {
            slot.publish(b.clone());
            slot.publish(a.clone());
        }
        let seen = slot.read_latest().unwrap();
        assert!(seen == a || seen == b);
        assert_eq!(seen, if a_first { b.clone() } else { a.clone() });
    }
}
