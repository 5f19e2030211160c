use ipfi::{CompleteLock, CompleteLockState};
use std::cell::RefCell;
use std::rc::Rc;

#[test]
fn complete_lock_should_unlock_waiter_no_threads() {
    let mut lock = CompleteLock::new();

    lock.mark_complete();
    let state = lock.wait_for_completion();
    assert_eq!(state, Some(CompleteLockState::Complete));
}

#[test]
fn complete_lock_should_unlock_multiple_waiters() {
    let lock = Rc::new(RefCell::new(CompleteLock::new()));

    let waiter_1 = lock.clone();
    let waiter_2 = lock.clone();
    assert!(waiter_1.borrow().wait_for_completion().is_none());
    assert!(waiter_2.borrow().wait_for_completion().is_none());

    lock.borrow_mut().mark_complete();

    let res_1 = waiter_1.borrow().wait_for_completion();
    let res_2 = waiter_2.borrow().wait_for_completion();
    assert!(res_1 == res_2 && res_1 == Some(CompleteLockState::Complete));
}

#[test]
fn poison_should_reach_all_waiters() {
    let lock = Rc::new(RefCell::new(CompleteLock::new()));
    let waiter = lock.clone();
    lock.borrow_mut().poison();
    assert_eq!(waiter.borrow().state(), CompleteLockState::Poisoned);
    // One of the waiters can also heal it, for everybody
    waiter.borrow_mut().mark_complete();
    assert_eq!(lock.borrow().state(), CompleteLockState::Complete);
}

#[test]
fn complete_lock_poison_should_unlock() {
    let mut lock = CompleteLock::new();

    lock.poison();
    let state = lock.wait_for_completion();
    assert_eq!(state, Some(CompleteLockState::Poisoned));
}

#[test]
fn completed_lock_should_not_be_poisoned() {
    let mut lock = CompleteLock::new();
    assert_eq!(lock.state(), CompleteLockState::Incomplete);
    lock.mark_complete();
    lock.poison();
    assert_eq!(lock.state(), CompleteLockState::Complete);
}

#[test]
fn completion_should_override_poison() {
    let mut lock = CompleteLock::new();
    lock.poison();
    lock.poison();
    assert_eq!(lock.state(), CompleteLockState::Poisoned);
    lock.mark_complete();
    assert_eq!(lock.state(), CompleteLockState::Complete);
}

#[test]
fn only_completion_should_count_as_completed() {
    let mut lock = CompleteLock::new();
    assert!(!lock.completed());
    lock.poison();
    assert!(!lock.completed());
    lock.mark_complete();
    assert!(lock.completed());
}
