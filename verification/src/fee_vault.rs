//! The fee vault: compounds fees harvested from the protocol's fee contract
//! into the vault's tracked pool of the underlying token.
//!
//! Harvesting is a call into the fee contract, which the ledger cannot make
//! itself: [`FeeVaultContract::compound_fees`] authorizes the compounding
//! and names the fee contract to harvest, and
//! [`FeeVaultContract::apply_harvest`] adds what the harvest returned.

use vstd::prelude::*;
use crate::address::Address;

verus! {

/// Why compounding was refused.
#[derive(Clone, Copy, PartialEq, Eq, Debug, Structural)]
pub enum VaultError {
    /// A setting the vault needs is missing.
    NotInitialized,
    /// The caller is not the vault's admin.
    Unauthorized,
    /// The pool would overflow.
    MathOverflow,
}

/// The vault's ledger.
pub struct FeeVaultContract {
    pub admin: Option<Address>,
    pub fee_contract: Option<Address>,
    pub underlying_token: Option<Address>,
    /// The tracked pool of the underlying token, once written.
    pub total_underlying: Option<i128>,
}

/// The tracked pool (0 when none is stored).
pub open spec fn pool_value(total: Option<i128>) -> i128 {
    match total {
        Some(t) => t,
        None => 0,
    }
}

impl FeeVaultContract {
    /// Authorizes `caller` to compound: the admin, fee contract and
    /// underlying token must be set, and `caller` must be the admin.
    /// Returns the fee contract to harvest.
    pub fn compound_fees(&self, caller: &Address) -> (r: Result<&Address, VaultError>)
        ensures
            self.admin is None ==> r is Err && r->Err_0 == VaultError::NotInitialized,
            self.admin matches Some(a) && a@ != caller@ ==> r is Err && r->Err_0 == VaultError::Unauthorized,
            self.admin matches Some(a) && a@ == caller@ && (self.fee_contract is None || self.underlying_token is None)
                ==> r is Err && r->Err_0 == VaultError::NotInitialized,
            self.admin matches Some(a) && a@ == caller@ && self.fee_contract is Some && self.underlying_token is Some
                ==> (r matches Ok(f) && f@ == self.fee_contract.unwrap()@),
    {
        let admin = match &self.admin {
            Some(a) => a,
            None => {
                return Err(VaultError::NotInitialized);
            },
        };
        if !caller.same(admin) {
            return Err(VaultError::Unauthorized);
        }
        let fee_contract = match &self.fee_contract {
            Some(f) => f,
            None => {
                return Err(VaultError::NotInitialized);
            },
        };
        if self.underlying_token.is_none() {
            return Err(VaultError::NotInitialized);
        }
        Ok(fee_contract)
    }

    /// Adds the `pending_amount` a harvest returned to the pool; nothing
    /// happens when it is not positive.
    pub fn apply_harvest(&mut self, pending_amount: i128) -> (r: Result<(), VaultError>)
        ensures
            pending_amount <= 0 ==> r is Ok && final(self).total_underlying == old(self).total_underlying,
            pending_amount > 0 && pool_value(old(self).total_underlying) + pending_amount > i128::MAX
                ==> r == Err::<(), VaultError>(VaultError::MathOverflow) && final(self).total_underlying == old(self).total_underlying,
            pending_amount > 0 && pool_value(old(self).total_underlying) + pending_amount <= i128::MAX
                ==> r is Ok && final(self).total_underlying == Some((pool_value(old(self).total_underlying) + pending_amount) as i128),
            final(self).admin == old(self).admin,
            final(self).fee_contract == old(self).fee_contract,
            final(self).underlying_token == old(self).underlying_token,
    {
        if pending_amount <= 0 {
            return Ok(());
        }
        let current_balance = match self.total_underlying {
            Some(t) => t,
            None => 0,
        };
        let new_balance = match current_balance.checked_add(pending_amount) {
            Some(b) => b,
            None => {
                return Err(VaultError::MathOverflow);
            },
        };
        self.total_underlying = Some(new_balance);
        Ok(())
    }
}

} // verus!
