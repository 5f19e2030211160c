//! Locks that record whether something has been completed.
use vstd::prelude::*;

verus! {

/// The state of a completion lock.
#[derive(PartialEq, Eq, Structural, Debug, Clone, Copy)]
pub enum CompleteLockState {
    /// Still waiting for someone to mark this lock as complete.
    Incomplete,
    /// The lock has been marked as complete.
    Complete,
    /// The lock has been poisoned: whatever it was guarding is almost certainly in an invalid
    /// state.
    Poisoned,
}

impl CompleteLockState {
    /// What poisoning makes of a state: only incomplete locks can be poisoned.
    pub open spec fn poisoned(self) -> CompleteLockState {
        if self is Incomplete {
            CompleteLockState::Poisoned
        } else {
            self
        }
    }
}

/// A completion lock. Whoever waits on one asks it again after every change. There is only ever one
/// of each lock: what is handed out of it is its current state, so nobody can hold on to a copy
/// that misses a change.
#[derive(PartialEq, Eq, Structural, Debug)]
pub struct CompleteLock {
    state: CompleteLockState,
}

impl View for CompleteLock {
    type V = CompleteLockState;

    closed spec fn view(&self) -> CompleteLockState {
        self.state
    }
}

impl CompleteLock {
    /// Creates a new, incomplete, lock.
    pub fn new() -> (lock: Self)
        ensures
            lock@ is Incomplete,
    {
        Self { state: CompleteLockState::Incomplete }
    }

    /// Gets the current state of the lock.
    pub fn state(&self) -> (state: CompleteLockState)
        ensures
            state == self@,
    {
        self.state
    }

    /// Tells whether the lock has been marked as complete.
    pub fn completed(&self) -> (completed: bool)
        ensures
            completed == (self@ is Complete),
    {
        self.state == CompleteLockState::Complete
    }

    /// Marks the lock as complete. If the lock was previously poisoned, this will override that.
    pub fn mark_complete(&mut self)
        ensures
            final(self)@ is Complete,
    {
        self.state = CompleteLockState::Complete;
    }

    /// Poisons the lock, signalling to any waiters that what it guards is now in an invalid
    /// state. Only an incomplete lock can be poisoned.
    pub fn poison(&mut self)
        ensures
            final(self)@ == old(self)@.poisoned(),
    {
        if self.state == CompleteLockState::Incomplete {
            self.state = CompleteLockState::Poisoned;
        }
    }

    /// What a waiter on this lock is told: nothing as long as the lock is incomplete, and the
    /// state of the lock once it has been completed or explicitly poisoned.
    #[must_use]
    pub fn wait_for_completion(&self) -> (state: Option<CompleteLockState>)
        ensures
            state == (if self@ is Incomplete {
                None
            } else {
                Some(self@)
            }),
    {
        if self.state == CompleteLockState::Incomplete {
            None
        } else {
            Some(self.state)
        }
    }
}

/// A lock that has been completed stays completed: poisoning it changes nothing.
pub proof fn law_complete_is_final(state: CompleteLockState)
    requires
        state is Complete,
    ensures
        state.poisoned() == state,
{
}

/// Poisoning a lock makes it poisoned if and only if it has not been completed.
pub proof fn law_only_completed_resist_poison(state: CompleteLockState)
    ensures
        state.poisoned() is Poisoned <==> !(state is Complete),
        state.poisoned() is Complete <==> state is Complete,
{
}

/// Poisoning a lock twice is poisoning it once, and no waiter is left waiting by it.
pub proof fn law_poison_releases_waiters(state: CompleteLockState)
    ensures
        state.poisoned().poisoned() == state.poisoned(),
        !(state.poisoned() is Incomplete),
{
}

} // verus!
