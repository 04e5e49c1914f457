//! A reentrancy guard: a flag held in storage while a guarded call runs.

use vstd::prelude::*;

verus! {

/// State of a reentrancy guard.
#[derive(Clone, Copy, PartialEq, Eq, Debug, Structural)]
pub enum ReentrancyGuardState {
    /// Not held; entering is allowed.
    NotEntered,
    /// Held; re-entry is refused.
    Entered,
}

/// A guarded call was entered again while it was running.
#[derive(Clone, Copy, PartialEq, Eq, Debug, Structural)]
pub struct ReentrancyDetected;

/// A reentrancy guard and the state stored under its key.
pub struct ReentrancyGuard {
    /// Name of the storage slot that holds the guard's state.
    pub state_key: String,
    /// The stored state, if one was ever written.
    pub state: Option<ReentrancyGuardState>,
}

/// Whether a stored state means the guard is held; a guard never written
/// is free.
pub open spec fn state_entered(state: Option<ReentrancyGuardState>) -> bool {
    state == Some(ReentrancyGuardState::Entered)
}

impl ReentrancyGuard {
    /// Whether the guard is held.
    pub open spec fn entered(&self) -> bool {
        state_entered(self.state)
    }

    /// A guard under `state_key` that was never entered.
    pub fn new(state_key: String) -> (r: ReentrancyGuard)
        ensures
            r.state_key@ == state_key@,
            r.state is None,
    {
        ReentrancyGuard { state_key, state: None }
    }

    /// Enters the guard; returns `false` when it is already held.
    pub fn enter(&mut self) -> (r: bool)
        ensures
            r == !old(self).entered(),
            final(self).state_key@ == old(self).state_key@,
            r ==> final(self).state == Some(ReentrancyGuardState::Entered),
            !r ==> final(self).state == old(self).state,
    {
        if self.is_entered() {
            return false;
        }
        self.state = Some(ReentrancyGuardState::Entered);
        true
    }

    /// Releases the guard.
    pub fn exit(&mut self)
        ensures
            final(self).state_key@ == old(self).state_key@,
            final(self).state == Some(ReentrancyGuardState::NotEntered),
    {
        self.state = Some(ReentrancyGuardState::NotEntered);
    }

    /// Whether the guard is held.
    pub fn is_entered(&self) -> (r: bool)
        ensures
            r == self.entered(),
    {
        match self.state {
            Some(ReentrancyGuardState::Entered) => true,
            _ => false,
        }
    }

    /// Checks that the guard is not held.
    pub fn require_not_entered(&self) -> (r: Result<(), ReentrancyDetected>)
        ensures
            r == (if self.entered() { Err(ReentrancyDetected) } else { Ok(()) }),
    {
        if self.is_entered() {
            return Err(ReentrancyDetected);
        }
        Ok(())
    }
}

/// The guard cycle: an entered guard refuses entry until it is exited; an
/// exited or never-written guard can be entered.
pub proof fn lemma_guard_excludes_reentry()
    ensures
        state_entered(Some(ReentrancyGuardState::Entered)),
        !state_entered(Some(ReentrancyGuardState::NotEntered)),
        !state_entered(None),
{
}

} // verus!
