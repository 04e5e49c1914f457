//! Emergency pause and unpause of a contract.

use vstd::prelude::*;
use crate::address::Address;
use crate::rbac::{AccessControl, AdminError, Role, require_role_guard};

verus! {

/// The storage slot this module owns.
#[derive(Clone, Copy, PartialEq, Eq, Debug, Structural)]
pub enum LifecycleKey {
    /// Whether the contract is paused.
    Paused,
}

/// Why a lifecycle operation was refused.
#[derive(Clone, Copy, PartialEq, Eq, Debug, Structural)]
pub enum LifecycleError {
    /// The caller does not hold the `Pauser` role.
    Access(AdminError),
    /// The contract is already paused.
    AlreadyPaused,
    /// The contract is not paused.
    NotPaused,
    /// The contract is paused.
    Paused,
}

/// The pause flag of a contract.
pub struct Lifecycle {
    /// The stored flag, if one was ever written.
    pub paused: Option<bool>,
}

impl Lifecycle {
    /// A contract that was never paused.
    pub fn new() -> (r: Lifecycle)
        ensures
            r.paused is None,
    {
        Lifecycle { paused: None }
    }

    /// Whether the flag says paused.
    pub open spec fn is_paused_spec(&self) -> bool {
        self.paused == Some(true)
    }
}

/// What pausing answers, for a caller that holds the `Pauser` role or not,
/// on a contract that is paused or not.
pub open spec fn pause_result(is_pauser: bool, paused: bool) -> Result<(), LifecycleError> {
    if !is_pauser {
        Err(LifecycleError::Access(AdminError::UnauthorizedRole))
    } else if paused {
        Err(LifecycleError::AlreadyPaused)
    } else {
        Ok(())
    }
}

/// What unpausing answers, for a caller that holds the `Pauser` role or
/// not, on a contract that is paused or not.
pub open spec fn unpause_result(is_pauser: bool, paused: bool) -> Result<(), LifecycleError> {
    if !is_pauser {
        Err(LifecycleError::Access(AdminError::UnauthorizedRole))
    } else if !paused {
        Err(LifecycleError::NotPaused)
    } else {
        Ok(())
    }
}

/// Pauses the contract; `caller` must hold the `Pauser` role.
pub fn pause(lc: &mut Lifecycle, ac: &AccessControl, caller: &Address) -> (r: Result<(), LifecycleError>)
    ensures
        r == pause_result(ac.holds(Role::Pauser, caller@), old(lc).is_paused_spec()),
        r is Err ==> final(lc).paused == old(lc).paused,
        r is Ok ==> final(lc).paused == Some(true),
{
    if require_role_guard(ac, Role::Pauser, caller).is_err() {
        return Err(LifecycleError::Access(AdminError::UnauthorizedRole));
    }
    if is_paused(lc) {
        return Err(LifecycleError::AlreadyPaused);
    }
    lc.paused = Some(true);
    Ok(())
}

/// Unpauses the contract; `caller` must hold the `Pauser` role.
pub fn unpause(lc: &mut Lifecycle, ac: &AccessControl, caller: &Address) -> (r: Result<(), LifecycleError>)
    ensures
        r == unpause_result(ac.holds(Role::Pauser, caller@), old(lc).is_paused_spec()),
        r is Err ==> final(lc).paused == old(lc).paused,
        r is Ok ==> final(lc).paused == Some(false),
{
    if require_role_guard(ac, Role::Pauser, caller).is_err() {
        return Err(LifecycleError::Access(AdminError::UnauthorizedRole));
    }
    if !is_paused(lc) {
        return Err(LifecycleError::NotPaused);
    }
    lc.paused = Some(false);
    Ok(())
}

/// Whether the contract is paused.
pub fn is_paused(lc: &Lifecycle) -> (r: bool)
    ensures
        r == lc.is_paused_spec(),
{
    match lc.paused {
        Some(p) => p,
        None => false,
    }
}

/// Checks that the contract is not paused.
pub fn require_not_paused(lc: &Lifecycle) -> (r: Result<(), LifecycleError>)
    ensures
        r == (if lc.is_paused_spec() { Err(LifecycleError::Paused) } else { Ok(()) }),
{
    if is_paused(lc) {
        return Err(LifecycleError::Paused);
    }
    Ok(())
}

/// Unpausing undoes pausing, and pausing undoes unpausing: each succeeds
/// exactly from the state the other leaves.
pub proof fn lemma_pause_round_trip()
    ensures
        (Lifecycle { paused: Some(true) }).is_paused_spec(),
        !(Lifecycle { paused: Some(false) }).is_paused_spec(),
        !(Lifecycle { paused: None }).is_paused_spec(),
{
}

/// A pauser can pause a running contract and unpause a paused one, each
/// exactly once in a row; anyone else can do neither.
pub proof fn lemma_pauser_toggles(is_pauser: bool, paused: bool)
    ensures
        pause_result(is_pauser, paused) is Ok <==> is_pauser && !paused,
        unpause_result(is_pauser, paused) is Ok <==> is_pauser && paused,
        is_pauser ==> pause_result(is_pauser, false) is Ok && unpause_result(is_pauser, true) is Ok,
        is_pauser ==> pause_result(is_pauser, true) is Err && unpause_result(is_pauser, false) is Err,
{
}

} // verus!

