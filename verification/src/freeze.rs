//! Freezing of single addresses and of every address at once.

use vstd::prelude::*;
use crate::address::Address;
use crate::ledger_map::LedgerMap;

verus! {

/// The storage slots this module owns.
pub enum FreezeKey {
    /// Whether one address is frozen.
    Address(Address),
    /// Whether every address is frozen.
    All,
}

/// The freeze flags of a contract.
pub struct FreezeState {
    /// Per-address flags.
    pub addresses: LedgerMap<Address, bool>,
    /// The global flag, once written.
    pub all: Option<bool>,
}

/// The freeze flags as plain values.
pub struct FreezeView {
    pub addresses: Map<Seq<char>, bool>,
    pub all: Option<bool>,
}

impl View for FreezeState {
    type V = FreezeView;

    open spec fn view(&self) -> FreezeView {
        FreezeView { addresses: self.addresses@, all: self.all }
    }
}

impl FreezeView {
    /// Whether `a` is frozen on its own.
    pub open spec fn address_frozen(self, a: Seq<char>) -> bool {
        self.addresses.contains_key(a) && self.addresses[a]
    }

    /// Whether every address is frozen.
    pub open spec fn all_frozen(self) -> bool {
        self.all == Some(true)
    }

    /// Whether `a` is frozen, on its own or with every address.
    pub open spec fn frozen(self, a: Seq<char>) -> bool {
        self.all_frozen() || self.address_frozen(a)
    }
}

impl FreezeState {
    /// Nothing frozen.
    pub fn new() -> (r: FreezeState)
        ensures
            r@.addresses == Map::<Seq<char>, bool>::empty(),
            r@.all is None,
    {
        FreezeState { addresses: LedgerMap::new(), all: None }
    }
}

/// Freezes `address`.
pub fn freeze_address(state: &mut FreezeState, address: &Address)
    ensures
        final(state)@ == (FreezeView { addresses: old(state)@.addresses.insert(address@, true), ..old(state)@ }),
{
    state.addresses.set(address.duplicate(), true);
}

/// Unfreezes `address`; the global flag is untouched.
pub fn unfreeze_address(state: &mut FreezeState, address: &Address)
    ensures
        final(state)@ == (FreezeView { addresses: old(state)@.addresses.remove(address@), ..old(state)@ }),
{
    state.addresses.remove(address);
}

/// Whether `address` is frozen on its own.
pub fn is_address_frozen(state: &FreezeState, address: &Address) -> (r: bool)
    ensures
        r == state@.address_frozen(address@),
{
    match state.addresses.get(address) {
        Some(f) => *f,
        None => false,
    }
}

/// Freezes every address.
pub fn freeze_all(state: &mut FreezeState)
    ensures
        final(state)@ == (FreezeView { all: Some(true), ..old(state)@ }),
{
    state.all = Some(true);
}

/// Lifts the global freeze; per-address flags are untouched.
pub fn unfreeze_all(state: &mut FreezeState)
    ensures
        final(state)@ == (FreezeView { all: None, ..old(state)@ }),
{
    state.all = None;
}

/// Whether every address is frozen.
pub fn is_all_frozen(state: &FreezeState) -> (r: bool)
    ensures
        r == state@.all_frozen(),
{
    match state.all {
        Some(f) => f,
        None => false,
    }
}

/// Whether `address` is frozen, on its own or with every address.
pub fn is_frozen(state: &FreezeState, address: &Address) -> (r: bool)
    ensures
        r == state@.frozen(address@),
{
    if is_all_frozen(state) {
        true
    } else {
        is_address_frozen(state, address)
    }
}

/// A global freeze freezes every address, whatever its own flag.
pub proof fn lemma_freeze_all_freezes_everyone(v: FreezeView, a: Seq<char>)
    ensures
        (FreezeView { all: Some(true), ..v }).frozen(a),
{
}

/// Unfreezing an address undoes freezing it, unless every address is
/// frozen.
pub proof fn lemma_unfreeze_undoes_freeze(v: FreezeView, a: Seq<char>)
    ensures
        ({
            let frozen = FreezeView { addresses: v.addresses.insert(a, true), ..v };
            let thawed = FreezeView { addresses: frozen.addresses.remove(a), ..frozen };
            &&& frozen.frozen(a)
            &&& !thawed.address_frozen(a)
            &&& thawed.frozen(a) == v.all_frozen()
        }),
{
}

/// Freezing one address leaves every other address as it was.
pub proof fn lemma_freeze_is_local(v: FreezeView, a: Seq<char>, b: Seq<char>)
    requires
        a != b,
    ensures
        (FreezeView { addresses: v.addresses.insert(a, true), ..v }).frozen(b) == v.frozen(b),
        (FreezeView { addresses: v.addresses.remove(a), ..v }).frozen(b) == v.frozen(b),
{
}

} // verus!
