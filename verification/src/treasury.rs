//! The treasury: holds deposits of the suite's token and keeps an internal
//! balance of what it received.
//!
//! A deposit pulls tokens through the token contract, which the ledger
//! cannot call itself: [`TreasuryContract::deposit`] checks the request and
//! names the token to pull from, and once the transfer went through,
//! [`TreasuryContract::credit_deposit`] books it.

use vstd::prelude::*;
use crate::address::{Address, zero_address_view};
use crate::ledger_map::LedgerMap;
use crate::rbac::{AccessControl, AccessView, AdminError, set_admin, set_admin_post, set_admin_conflicts};

verus! {

/// Errors of the treasury, each with a stable code
/// (see [`TreasuryError::code`]).
#[derive(Clone, Copy, PartialEq, Eq, Debug, Structural)]
pub enum TreasuryError {
    AlreadyInitialized,
    NotInitialized,
    InvalidAmount,
    InsufficientBalance,
    Unauthorized,
    TokenTransferFailed,
}

/// The numeric code of each treasury error.
pub open spec fn treasury_error_code(e: TreasuryError) -> u32 {
    match e {
        TreasuryError::AlreadyInitialized => 1,
        TreasuryError::NotInitialized => 2,
        TreasuryError::InvalidAmount => 3,
        TreasuryError::InsufficientBalance => 4,
        TreasuryError::Unauthorized => 5,
        TreasuryError::TokenTransferFailed => 6,
    }
}

impl TreasuryError {
    /// The stable numeric code of the error.
    pub fn code(self) -> (r: u32)
        ensures
            r == treasury_error_code(self),
    {
        match self {
            TreasuryError::AlreadyInitialized => 1,
            TreasuryError::NotInitialized => 2,
            TreasuryError::InvalidAmount => 3,
            TreasuryError::InsufficientBalance => 4,
            TreasuryError::Unauthorized => 5,
            TreasuryError::TokenTransferFailed => 6,
        }
    }
}

/// Why a treasury call was refused: a treasury error, or an access-control
/// error raised while setting the admin.
#[derive(Clone, Copy, PartialEq, Eq, Debug, Structural)]
pub enum TreasuryCallError {
    Treasury(TreasuryError),
    Access(AdminError),
}

/// The treasury's ledger.
pub struct TreasuryContract {
    /// The admin, once initialized.
    pub admin: Option<Address>,
    /// The token deposits are made in, once initialized.
    pub token_contract: Option<Address>,
    /// Internal balance of each address.
    pub balances: LedgerMap<Address, i128>,
    /// Admin and roles.
    pub access: AccessControl,
}

/// The treasury ledger as plain values.
pub struct TreasuryView {
    pub admin: Option<Seq<char>>,
    pub token_contract: Option<Seq<char>>,
    pub balances: Map<Seq<char>, i128>,
    pub access: AccessView,
}

impl View for TreasuryContract {
    type V = TreasuryView;

    open spec fn view(&self) -> TreasuryView {
        TreasuryView {
            admin: match self.admin { Some(a) => Some(a@), None => None },
            token_contract: match self.token_contract { Some(a) => Some(a@), None => None },
            balances: self.balances@,
            access: self.access@,
        }
    }
}

impl TreasuryView {
    /// The internal balance of `a` (0 when none is stored).
    pub open spec fn balance(self, a: Seq<char>) -> i128 {
        if self.balances.contains_key(a) { self.balances[a] } else { 0 }
    }
}

impl TreasuryContract {
    /// A treasury that was never initialized.
    pub fn new() -> (r: TreasuryContract)
        ensures
            r@.admin is None,
            r@.token_contract is None,
            r@.balances == Map::<Seq<char>, i128>::empty(),
            r@.access == (AccessView {
                admin: None,
                role_masks: Map::empty(),
                legacy_roles: Map::empty(),
                super_admins: Map::empty(),
            }),
    {
        TreasuryContract {
            admin: None,
            token_contract: None,
            balances: LedgerMap::new(),
            access: AccessControl::new(),
        }
    }

    /// Initializes the treasury with its admin and token.
    pub fn initialize(&mut self, admin: &Address, token_contract: &Address) -> (r: Result<(), TreasuryCallError>)
        ensures
            r == (if old(self)@.admin is Some {
                Err(TreasuryCallError::Treasury(TreasuryError::AlreadyInitialized))
            } else if admin@ == zero_address_view() {
                Err(TreasuryCallError::Access(AdminError::InvalidAddress))
            } else if set_admin_conflicts(&old(self).access, admin@) {
                Err(TreasuryCallError::Access(AdminError::RoleAlreadyGranted))
            } else {
                Ok(())
            }),
            r is Err ==> final(self)@ == old(self)@,
            r is Ok ==> set_admin_post(&old(self).access, &final(self).access, admin@)
                && final(self)@ == (TreasuryView {
                    admin: Some(admin@),
                    token_contract: Some(token_contract@),
                    access: final(self)@.access,
                    ..old(self)@
                }),
    {
        if self.admin.is_some() {
            return Err(TreasuryCallError::Treasury(TreasuryError::AlreadyInitialized));
        }
        match set_admin(&mut self.access, admin) {
            Ok(()) => {},
            Err(e) => {
                return Err(TreasuryCallError::Access(e));
            },
        }
        self.admin = Some(admin.duplicate());
        self.token_contract = Some(token_contract.duplicate());
        Ok(())
    }

    /// Checks a deposit of `amount` and returns the token to pull it from.
    pub fn deposit(&self, amount: i128) -> (r: Result<&Address, TreasuryError>)
        requires
            self@.admin is Some ==> self@.token_contract is Some,
        ensures
            self@.admin is None ==> r is Err && r->Err_0 == TreasuryError::NotInitialized,
            self@.admin is Some && amount <= 0 ==> r is Err && r->Err_0 == TreasuryError::InvalidAmount,
            self@.admin is Some && amount > 0 ==> (r matches Ok(t) && Some(t@) == self@.token_contract),
    {
        if self.admin.is_none() {
            return Err(TreasuryError::NotInitialized);
        }
        if amount <= 0 {
            return Err(TreasuryError::InvalidAmount);
        }
        Ok(self.token_contract.as_ref().unwrap())
    }

    /// Books a deposit of `amount` received by the treasury at
    /// `treasury_address`; returns the treasury's new balance.
    pub fn credit_deposit(&mut self, treasury_address: &Address, amount: i128) -> (r: i128)
        requires
            old(self)@.balance(treasury_address@) + amount <= i128::MAX,
            old(self)@.balance(treasury_address@) + amount >= i128::MIN,
        ensures
            r == old(self)@.balance(treasury_address@) + amount,
            final(self)@ == (TreasuryView {
                balances: old(self)@.balances.insert(treasury_address@, r),
                ..old(self)@
            }),
    {
        let current = match self.balances.get(treasury_address) {
            Some(b) => *b,
            None => 0,
        };
        let new_balance = current + amount;
        self.balances.set(treasury_address.duplicate(), new_balance);
        new_balance
    }

    /// The internal balance of `id`.
    pub fn balance(&self, id: &Address) -> (r: Result<i128, TreasuryError>)
        ensures
            r == (if self@.admin is Some { Ok(self@.balance(id@)) } else { Err(TreasuryError::NotInitialized) }),
    {
        if self.admin.is_none() {
            return Err(TreasuryError::NotInitialized);
        }
        match self.balances.get(id) {
            Some(b) => Ok(*b),
            None => Ok(0),
        }
    }
}

} // verus!
