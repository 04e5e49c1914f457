//! A guard against flash loans: a deposit cannot be withdrawn in the same
//! ledger it was made in.

use vstd::prelude::*;
use crate::address::Address;
use crate::ledger_map::LedgerMap;

verus! {

/// Why a withdrawal was refused.
#[derive(Clone, Copy, PartialEq, Eq, Debug, Structural)]
pub enum FlashLoanError {
    /// The withdrawal is in the ledger of the deposit, or before it.
    SameLedgerWithdrawal,
}

impl FlashLoanError {
    /// The message the contract aborts with for this error.
    pub fn message(self) -> (r: &'static str)
        ensures
            r@ == "FlashLoanReentrancy: withdrawal prohibited in the same ledger block as deposit"@,
    {
        match self {
            FlashLoanError::SameLedgerWithdrawal =>
                "FlashLoanReentrancy: withdrawal prohibited in the same ledger block as deposit",
        }
    }
}

/// The guard's ledger: the ledger of each user's open deposit.
pub struct FlashLoanGuardContract {
    pub deposit_blocks: LedgerMap<Address, u32>,
}

impl View for FlashLoanGuardContract {
    type V = Map<Seq<char>, u32>;

    open spec fn view(&self) -> Map<Seq<char>, u32> {
        self.deposit_blocks@
    }
}

/// The ledger of `user`'s open deposit, 0 when there is none.
pub open spec fn deposit_block(v: Map<Seq<char>, u32>, user: Seq<char>) -> u32 {
    if v.contains_key(user) { v[user] } else { 0 }
}

/// What a withdrawal by `user` in ledger `sequence` answers.
pub open spec fn withdraw_result(v: Map<Seq<char>, u32>, user: Seq<char>, sequence: u32) -> Result<(), FlashLoanError> {
    if sequence <= deposit_block(v, user) {
        Err(FlashLoanError::SameLedgerWithdrawal)
    } else {
        Ok(())
    }
}

impl FlashLoanGuardContract {
    /// No deposits.
    pub fn new() -> (r: FlashLoanGuardContract)
        ensures
            r@ == Map::<Seq<char>, u32>::empty(),
    {
        FlashLoanGuardContract { deposit_blocks: LedgerMap::new() }
    }

    /// Records a deposit by `user` in ledger `sequence`.
    pub fn deposit(&mut self, user: &Address, sequence: u32)
        ensures
            final(self)@ == old(self)@.insert(user@, sequence),
    {
        self.deposit_blocks.set(user.duplicate(), sequence);
    }

    /// Withdraws `user`'s deposit in ledger `sequence`, which must come after
    /// the ledger of the deposit.
    pub fn withdraw(&mut self, user: &Address, sequence: u32) -> (r: Result<(), FlashLoanError>)
        ensures
            r == withdraw_result(old(self)@, user@, sequence),
            r is Err ==> final(self)@ == old(self)@,
            r is Ok ==> final(self)@ == old(self)@.remove(user@),
    {
        let deposit_block: u32 = match self.deposit_blocks.get(user) {
            Some(b) => *b,
            None => 0,
        };
        if sequence <= deposit_block {
            return Err(FlashLoanError::SameLedgerWithdrawal);
        }
        self.deposit_blocks.remove(user);
        Ok(())
    }
}

/// A deposit cannot be withdrawn in the ledger it was made in, nor in an
/// earlier one; any later ledger may withdraw it.
pub proof fn lemma_no_same_ledger_withdrawal(v: Map<Seq<char>, u32>, user: Seq<char>, deposited: u32, sequence: u32)
    ensures
        sequence <= deposited ==> sequence <= deposit_block(v.insert(user, deposited), user),
        sequence > deposited ==> sequence > deposit_block(v.insert(user, deposited), user),
{
}

/// After a deposit in ledger `deposited`, a withdrawal succeeds exactly in a
/// later ledger, and a withdrawal removes the record so the next deposit
/// starts afresh.
pub proof fn lemma_withdraw_after_deposit(v: Map<Seq<char>, u32>, user: Seq<char>, deposited: u32, sequence: u32)
    ensures
        withdraw_result(v.insert(user, deposited), user, sequence) is Ok <==> sequence > deposited,
        !v.remove(user).contains_key(user),
{
}

} // verus!

