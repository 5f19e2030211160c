use ipfi::RoiQueue;

#[test]
fn should_start_at_zero() {
    let mut queue = RoiQueue::new();
    let id = queue.get();
    assert_eq!(id, 0);
}

#[test]
fn should_increment_without_relinquish() {
    let mut queue = RoiQueue::new();
    assert_eq!(queue.get(), 0);
    assert_eq!(queue.get(), 1);
    assert_eq!(queue.get(), 2);
}

#[test]
fn should_reuse_when_relinquished() {
    let mut queue = RoiQueue::new();
    assert_eq!(queue.get(), 0);
    assert_eq!(queue.get(), 1);
    queue.relinquish(0);
    assert_eq!(queue.get(), 0);
    queue.relinquish(1);
    assert_eq!(queue.get(), 1);
    assert_eq!(queue.get(), 2);
}

#[test]
fn should_reuse_in_order_of_relinquishing() {
    let mut queue = RoiQueue::default();
    for expected in 0..4 {
        assert_eq!(queue.get(), expected);
    }
    queue.relinquish(2);
    queue.relinquish(0);
    assert_eq!(queue.get(), 2);
    assert_eq!(queue.get(), 0);
    assert_eq!(queue.get(), 4);
}

#[test]
fn should_not_check_what_is_relinquished() {
    let mut queue = RoiQueue::new();
    queue.relinquish(7);
    assert_eq!(queue.get(), 7);
    assert_eq!(queue.get(), 0);
}
