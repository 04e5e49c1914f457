//! The bc-forge SEP-41 token: balances, allowances, a capped supply, fee
//! settings, pausing, and rate-limited minting, transfers and burns.
//!
//! A refused call leaves the whole ledger as it was.

use vstd::prelude::*;
use crate::address::{Address, zero_address_view};
use crate::ledger_map::LedgerMap;
use crate::lifecycle::{Lifecycle, is_paused};
use crate::rate_limit::{BcForgeRateLimit, RateLimitView, RateLimitVerdict};
use crate::rbac::{AccessControl, AccessView, AdminError, Role, has_admin, get_admin, set_admin,
    set_admin_post, set_admin_conflicts, require_admin, require_minter, require_super_admin,
    require_role_guard};

verus! {

/// Operation type of mints, for rate limiting.
pub const OPERATION_MINT: &'static str = "mint";
/// Operation type of transfers, for rate limiting.
pub const OPERATION_TRANSFER: &'static str = "transfer";
/// Operation type of delegated transfers, for rate limiting.
pub const OPERATION_TRANSFER_FROM: &'static str = "transfer_from";
/// Operation type of burns, for rate limiting.
pub const OPERATION_BURN: &'static str = "burn";
/// Operation type of delegated burns, for rate limiting.
pub const OPERATION_BURN_FROM: &'static str = "burn_from";

/// Errors of the token contract, each with a stable code
/// (see [`TokenError::code`]).
#[derive(Clone, Copy, PartialEq, Eq, Debug, Structural)]
pub enum TokenError {
    AlreadyInitialized,
    NotInitialized,
    InvalidAmount,
    InsufficientBalance,
    InsufficientAllowance,
    ContractPaused,
    FeeNotConfigured,
    InsufficientFeeBalance,
    FeeExemptionNotFound,
    MaxSupplyExceeded,
    AlreadyPaused,
    NotPaused,
}

/// The numeric code of each token error.
pub open spec fn token_error_code(e: TokenError) -> u32 {
    match e {
        TokenError::AlreadyInitialized => 1,
        TokenError::NotInitialized => 2,
        TokenError::InvalidAmount => 3,
        TokenError::InsufficientBalance => 4,
        TokenError::InsufficientAllowance => 5,
        TokenError::ContractPaused => 6,
        TokenError::FeeNotConfigured => 7,
        TokenError::InsufficientFeeBalance => 8,
        TokenError::FeeExemptionNotFound => 9,
        TokenError::MaxSupplyExceeded => 10,
        TokenError::AlreadyPaused => 11,
        TokenError::NotPaused => 12,
    }
}

impl TokenError {
    /// The stable numeric code of the error.
    pub fn code(self) -> (r: u32)
        ensures
            r == token_error_code(self),
    {
        match self {
            TokenError::AlreadyInitialized => 1,
            TokenError::NotInitialized => 2,
            TokenError::InvalidAmount => 3,
            TokenError::InsufficientBalance => 4,
            TokenError::InsufficientAllowance => 5,
            TokenError::ContractPaused => 6,
            TokenError::FeeNotConfigured => 7,
            TokenError::InsufficientFeeBalance => 8,
            TokenError::FeeExemptionNotFound => 9,
            TokenError::MaxSupplyExceeded => 10,
            TokenError::AlreadyPaused => 11,
            TokenError::NotPaused => 12,
        }
    }
}

/// Why a token call was refused: a token error, or an access-control error
/// raised by a role check the call makes.
#[derive(Clone, Copy, PartialEq, Eq, Debug, Structural)]
pub enum TokenCallError {
    Token(TokenError),
    Access(AdminError),
}

/// Fee configuration.
#[derive(Clone, Copy, PartialEq, Eq, Debug, Structural)]
pub struct FeeConfig {
    /// Base fee charged per operation.
    pub base_fee: i128,
    /// Multiplier applied by operation complexity.
    pub complexity_multiplier: u32,
    /// Maximum fee.
    pub max_fee: i128,
    /// Whether fees are charged.
    pub enabled: bool,
}

/// Fee exemption of an address: 0 = all operations, 1 = transfers only,
/// 2 = mint only.
#[derive(Clone, Copy, PartialEq, Eq, Debug, Structural)]
pub struct FeeExemption {
    pub exemption_type: u32,
}

/// A spending allowance and the ledger it expires after (0 = never).
#[derive(Clone, Copy, PartialEq, Eq, Debug, Structural)]
pub struct AllowanceData {
    pub amount: i128,
    pub expiration_ledger: u32,
}

/// A mint recipient with an amount.
pub struct Recipient {
    pub to: Address,
    pub amount: i128,
}

/// The token contract's ledger.
pub struct BcForgeToken {
    /// Balance of each address that has one.
    pub balances: LedgerMap<Address, i128>,
    /// Allowance of each (owner, spender).
    pub allowances: LedgerMap<(Address, Address), AllowanceData>,
    /// Number of decimals, once set.
    pub decimals: Option<u32>,
    /// Token name, once set.
    pub name: Option<String>,
    /// Token symbol, once set.
    pub symbol: Option<String>,
    /// Total supply, once written.
    pub supply: Option<i128>,
    /// Supply cap, once written.
    pub max_supply: Option<i128>,
    /// Treasury that collects fees, once set.
    pub treasury: Option<Address>,
    /// Fee configuration, once set.
    pub fee_config: Option<FeeConfig>,
    /// Fee exemptions by address.
    pub fee_exemptions: LedgerMap<Address, FeeExemption>,
    /// Admin and roles.
    pub access: AccessControl,
    /// Pause flag.
    pub lifecycle: Lifecycle,
    /// Rate limits of the token's operations.
    pub rate_limits: BcForgeRateLimit,
}

/// The token ledger as plain values.
pub struct TokenView {
    pub balances: Map<Seq<char>, i128>,
    pub allowances: Map<(Seq<char>, Seq<char>), AllowanceData>,
    pub decimals: Option<u32>,
    pub name: Option<Seq<char>>,
    pub symbol: Option<Seq<char>>,
    pub supply: Option<i128>,
    pub max_supply: Option<i128>,
    pub treasury: Option<Seq<char>>,
    pub fee_config: Option<FeeConfig>,
    pub fee_exemptions: Map<Seq<char>, FeeExemption>,
    pub access: AccessView,
    pub paused: Option<bool>,
    pub rate_limits: RateLimitView,
}

/// The strkey of an optional address.
pub open spec fn opt_addr(a: Option<Address>) -> Option<Seq<char>> {
    match a {
        Some(x) => Some(x@),
        None => None,
    }
}

/// The characters of an optional string.
pub open spec fn opt_str(s: Option<String>) -> Option<Seq<char>> {
    match s {
        Some(x) => Some(x@),
        None => None,
    }
}

impl View for BcForgeToken {
    type V = TokenView;

    open spec fn view(&self) -> TokenView {
        TokenView {
            balances: self.balances@,
            allowances: self.allowances@,
            decimals: self.decimals,
            name: opt_str(self.name),
            symbol: opt_str(self.symbol),
            supply: self.supply,
            max_supply: self.max_supply,
            treasury: opt_addr(self.treasury),
            fee_config: self.fee_config,
            fee_exemptions: self.fee_exemptions@,
            access: self.access@,
            paused: self.lifecycle.paused,
            rate_limits: self.rate_limits@,
        }
    }
}

impl TokenView {
    /// The balance of `a` (0 when none is stored).
    pub open spec fn balance(self, a: Seq<char>) -> i128 {
        if self.balances.contains_key(a) {
            self.balances[a]
        } else {
            0
        }
    }

    /// The total supply (0 when none is stored).
    pub open spec fn supply_value(self) -> i128 {
        match self.supply {
            Some(s) => s,
            None => 0,
        }
    }

    /// The supply cap (unbounded when none is stored).
    pub open spec fn max_supply_value(self) -> i128 {
        match self.max_supply {
            Some(s) => s,
            None => i128::MAX,
        }
    }

    /// Whether the token was initialized: an admin is set.
    pub open spec fn initialized(self) -> bool {
        self.access.admin is Some
    }

    /// Whether the token is paused.
    pub open spec fn is_paused(self) -> bool {
        self.paused == Some(true)
    }

    /// The stored allowance data of (`from`, `spender`).
    pub open spec fn allowance_data(self, from: Seq<char>, spender: Seq<char>) -> AllowanceData {
        if self.allowances.contains_key((from, spender)) {
            self.allowances[(from, spender)]
        } else {
            AllowanceData { amount: 0, expiration_ledger: 0 }
        }
    }

    /// The allowance of (`from`, `spender`) at ledger `sequence`: nothing
    /// once it has expired.
    pub open spec fn allowance_value(self, from: Seq<char>, spender: Seq<char>, sequence: u32) -> i128 {
        let d = self.allowance_data(from, spender);
        if d.expiration_ledger > 0 && sequence > d.expiration_ledger {
            0
        } else {
            d.amount
        }
    }

    /// Whether the rate limits allow `op` by `a` at `now`.
    pub open spec fn rate_allowed(self, a: Seq<char>, op: Seq<char>, now: u64) -> bool {
        self.rate_limits.verdict(Some(a), op, now) is Allowed
    }

    /// The ledger after the rate limits counted `op` by `a` at `now`.
    pub open spec fn rate_checked(self, a: Seq<char>, op: Seq<char>, now: u64) -> TokenView {
        TokenView {
            rate_limits: RateLimitView {
                global_counts: self.rate_limits.global_counts_after(op, now),
                address_counts: self.rate_limits.address_counts_after(Some(a), op, now),
                ..self.rate_limits
            },
            ..self
        }
    }

    /// The ledger after `amount` moved from `from` to `to`.
    pub open spec fn moved(self, from: Seq<char>, to: Seq<char>, amount: i128) -> TokenView {
        if from == to {
            self
        } else {
            TokenView {
                balances: self.balances.insert(from, (self.balance(from) - amount) as i128).insert(
                    to, (self.balance(to) + amount) as i128),
                ..self
            }
        }
    }

    /// The ledger after `amount` was minted to `to`.
    pub open spec fn minted(self, to: Seq<char>, amount: i128) -> TokenView {
        TokenView {
            balances: self.balances.insert(to, (self.balance(to) + amount) as i128),
            supply: Some((self.supply_value() + amount) as i128),
            ..self
        }
    }

    /// The ledger after `amount` of `from`'s balance was burned.
    pub open spec fn burned(self, from: Seq<char>, amount: i128) -> TokenView {
        TokenView {
            balances: self.balances.insert(from, (self.balance(from) - amount) as i128),
            supply: Some((self.supply_value() - amount) as i128),
            ..self
        }
    }

    /// The ledger after the allowance of (`from`, `spender`) was lowered by
    /// `amount` from its value at `sequence`, keeping its expiration.
    pub open spec fn allowance_spent(self, from: Seq<char>, spender: Seq<char>, amount: i128, sequence: u32) -> TokenView {
        TokenView {
            allowances: self.allowances.insert((from, spender), AllowanceData {
                amount: (self.allowance_value(from, spender, sequence) - amount) as i128,
                expiration_ledger: self.allowance_data(from, spender).expiration_ledger,
            }),
            ..self
        }
    }
    /// Whether a call with `amount` passes the checks that every balance
    /// operation starts with: initialized, not paused, a positive amount.
    pub open spec fn open_for(self, amount: i128) -> bool {
        self.initialized() && !self.is_paused() && amount > 0
    }

    /// Whether minting `amount` to `to` overflows an `i128` on the way.
    pub open spec fn mint_overflows(self, to: Seq<char>, amount: i128) -> bool {
        ||| self.supply_value() + amount > i128::MAX
        ||| (self.supply_value() + amount <= self.max_supply_value()
            && self.balance(to) + amount > i128::MAX)
    }

    /// Whether moving `amount` from `from` to `to` overflows the receiver's
    /// balance.
    pub open spec fn move_overflows(self, from: Seq<char>, to: Seq<char>, amount: i128) -> bool {
        self.balance(from) >= amount && from != to && self.balance(to) + amount > i128::MAX
    }

    /// Whether burning `amount` overflows the supply.
    pub open spec fn burn_overflows(self, from: Seq<char>, amount: i128) -> bool {
        self.balance(from) >= amount && self.supply_value() - amount < i128::MIN
    }

    /// What minting `amount` into the supply answers.
    pub open spec fn supply_check(self, amount: i128) -> Result<(), TokenError> {
        if amount <= 0 {
            Err(TokenError::InvalidAmount)
        } else if self.supply_value() + amount > self.max_supply_value() {
            Err(TokenError::MaxSupplyExceeded)
        } else {
            Ok(())
        }
    }

    /// What `mint` answers.
    pub open spec fn mint_result(self, minter: Seq<char>, amount: i128, now: u64) -> Result<(), TokenCallError> {
        if amount <= 0 {
            Err(TokenCallError::Token(TokenError::InvalidAmount))
        } else if !self.initialized() {
            Err(TokenCallError::Token(TokenError::NotInitialized))
        } else if self.is_paused() {
            Err(TokenCallError::Token(TokenError::ContractPaused))
        } else if !self.access.holds(Role::Minter, minter) {
            Err(TokenCallError::Access(AdminError::UnauthorizedRole))
        } else if !self.rate_allowed(minter, OPERATION_MINT@, now) {
            Err(TokenCallError::Token(TokenError::InvalidAmount))
        } else if self.supply_value() + amount > self.max_supply_value() {
            Err(TokenCallError::Token(TokenError::MaxSupplyExceeded))
        } else {
            Ok(())
        }
    }

    /// What `transfer` answers.
    pub open spec fn transfer_result(self, from: Seq<char>, amount: i128, now: u64) -> Result<(), TokenError> {
        if !self.initialized() {
            Err(TokenError::NotInitialized)
        } else if self.is_paused() {
            Err(TokenError::ContractPaused)
        } else if amount <= 0 {
            Err(TokenError::InvalidAmount)
        } else if !self.rate_allowed(from, OPERATION_TRANSFER@, now) {
            Err(TokenError::InvalidAmount)
        } else if self.balance(from) < amount {
            Err(TokenError::InsufficientBalance)
        } else {
            Ok(())
        }
    }

    /// What `transfer_from` answers.
    pub open spec fn transfer_from_result(self, spender: Seq<char>, from: Seq<char>, amount: i128, now: u64, sequence: u32) -> Result<(), TokenError> {
        if !self.initialized() {
            Err(TokenError::NotInitialized)
        } else if self.is_paused() {
            Err(TokenError::ContractPaused)
        } else if amount <= 0 {
            Err(TokenError::InvalidAmount)
        } else if !self.rate_allowed(spender, OPERATION_TRANSFER_FROM@, now) {
            Err(TokenError::InvalidAmount)
        } else if self.allowance_value(from, spender, sequence) < amount {
            Err(TokenError::InsufficientAllowance)
        } else if self.balance(from) < amount {
            Err(TokenError::InsufficientBalance)
        } else {
            Ok(())
        }
    }

    /// What `burn` answers.
    pub open spec fn burn_result(self, from: Seq<char>, amount: i128, now: u64) -> Result<(), TokenError> {
        if !self.initialized() {
            Err(TokenError::NotInitialized)
        } else if self.is_paused() {
            Err(TokenError::ContractPaused)
        } else if amount <= 0 {
            Err(TokenError::InvalidAmount)
        } else if !self.rate_allowed(from, OPERATION_BURN@, now) {
            Err(TokenError::InvalidAmount)
        } else if self.balance(from) < amount {
            Err(TokenError::InsufficientBalance)
        } else {
            Ok(())
        }
    }

    /// What `burn_from` answers.
    pub open spec fn burn_from_result(self, spender: Seq<char>, from: Seq<char>, amount: i128, now: u64, sequence: u32) -> Result<(), TokenError> {
        if !self.initialized() {
            Err(TokenError::NotInitialized)
        } else if self.is_paused() {
            Err(TokenError::ContractPaused)
        } else if amount <= 0 {
            Err(TokenError::InvalidAmount)
        } else if !self.rate_allowed(spender, OPERATION_BURN_FROM@, now) {
            Err(TokenError::InvalidAmount)
        } else if self.allowance_value(from, spender, sequence) < amount {
            Err(TokenError::InsufficientAllowance)
        } else if self.balance(from) < amount {
            Err(TokenError::InsufficientBalance)
        } else {
            Ok(())
        }
    }
}

/// One item of a batch: an address and an amount.
pub type BatchItem = (Seq<char>, i128);

/// A step of a batch operation on the token ledger.
pub type BatchStep = spec_fn(TokenView, BatchItem) -> Result<TokenView, TokenError>;

/// Runs `step` over `items` in order from `v`, stopping at the first error.
pub open spec fn run_steps(v: TokenView, items: Seq<BatchItem>, step: BatchStep) -> Result<TokenView, TokenError>
    decreases items.len(),
{
    if items.len() == 0 {
        Ok(v)
    } else {
        match run_steps(v, items.drop_last(), step) {
            Ok(w) => step(w, items.last()),
            Err(e) => Err(e),
        }
    }
}

/// Running one more item extends the run by one step.
proof fn lemma_run_steps_next(v: TokenView, items: Seq<BatchItem>, step: BatchStep, i: int)
    requires
        0 <= i < items.len(),
    ensures
        run_steps(v, items.take(i + 1), step) == (match run_steps(v, items.take(i), step) {
            Ok(w) => step(w, items[i]),
            Err(e) => Err(e),
        }),
{
    assert(items.take(i + 1).drop_last() =~= items.take(i));
}

/// A run that failed on a prefix fails the same way on the whole.
proof fn lemma_run_steps_prefix_err(v: TokenView, items: Seq<BatchItem>, step: BatchStep, k: int)
    requires
        0 <= k <= items.len(),
        run_steps(v, items.take(k), step) is Err,
    ensures
        run_steps(v, items, step) == run_steps(v, items.take(k), step),
    decreases items.len(),
{
    if k == items.len() {
        assert(items.take(k) =~= items);
    } else {
        assert(items.drop_last().take(k) =~= items.take(k));
        lemma_run_steps_prefix_err(v, items.drop_last(), step, k);
    }
}

/// The batch items of mint recipients.
pub open spec fn recipient_items(recipients: Seq<Recipient>) -> Seq<BatchItem> {
    recipients.map_values(|r: Recipient| (r.to@, r.amount))
}

/// The batch items of transfer recipients.
pub open spec fn transfer_items(recipients: Seq<(Address, i128)>) -> Seq<BatchItem> {
    recipients.map_values(|p: (Address, i128)| (p.0@, p.1))
}

/// Whether every amount of `items` is positive.
pub open spec fn all_positive(items: Seq<BatchItem>) -> bool {
    forall|i: int| 0 <= i < items.len() ==> #[trigger] items[i].1 > 0
}

/// The sum of the amounts of `items`.
pub open spec fn amount_total(items: Seq<BatchItem>) -> int
    decreases items.len(),
{
    if items.len() == 0 {
        0
    } else {
        amount_total(items.drop_last()) + items.last().1
    }
}

/// With positive amounts, a prefix never sums to more than the whole.
pub(crate) proof fn lemma_amount_total_prefix(items: Seq<BatchItem>, k: int)
    requires
        0 <= k <= items.len(),
        all_positive(items),
    ensures
        amount_total(items.take(k)) <= amount_total(items),
    decreases items.len(),
{
    if k == items.len() {
        assert(items.take(k) =~= items);
    } else {
        assert(items.drop_last().take(k) =~= items.take(k));
        assert(items.last().1 > 0) by {
            assert(items[items.len() - 1].1 > 0);
        }
        lemma_amount_total_prefix(items.drop_last(), k);
    }
}

impl TokenView {
    /// One mint of a batch: the minter's rate check, then the mint.
    pub open spec fn batch_mint_step(self, minter: Seq<char>, to: Seq<char>, amount: i128, now: u64) -> Result<TokenView, TokenError> {
        if !self.rate_allowed(minter, OPERATION_MINT@, now) {
            Err(TokenError::InvalidAmount)
        } else {
            let w = self.rate_checked(minter, OPERATION_MINT@, now);
            if w.supply_value() + amount > w.max_supply_value() {
                Err(TokenError::MaxSupplyExceeded)
            } else {
                Ok(w.minted(to, amount))
            }
        }
    }

    /// One mint of a batch computes without overflow.
    pub open spec fn batch_mint_step_fits(self, minter: Seq<char>, to: Seq<char>, amount: i128, now: u64) -> bool {
        &&& self.rate_limits.check_fits(Some(minter), OPERATION_MINT@)
        &&& self.rate_allowed(minter, OPERATION_MINT@, now) ==> !self.mint_overflows(to, amount)
    }

    /// One transfer of a batch: the sender's rate check, then the move.
    pub open spec fn batch_transfer_step(self, from: Seq<char>, to: Seq<char>, amount: i128, now: u64) -> Result<TokenView, TokenError> {
        if !self.rate_allowed(from, OPERATION_TRANSFER@, now) {
            Err(TokenError::InvalidAmount)
        } else {
            let w = self.rate_checked(from, OPERATION_TRANSFER@, now);
            if w.balance(from) < amount {
                Err(TokenError::InsufficientBalance)
            } else {
                Ok(w.moved(from, to, amount))
            }
        }
    }

    /// One transfer of a batch computes without overflow.
    pub open spec fn batch_transfer_step_fits(self, from: Seq<char>, to: Seq<char>, amount: i128, now: u64) -> bool {
        &&& self.rate_limits.check_fits(Some(from), OPERATION_TRANSFER@)
        &&& self.rate_allowed(from, OPERATION_TRANSFER@, now) ==> !self.move_overflows(from, to, amount)
    }
}

/// The step of a batch mint by `minter` at `now`.
pub open spec fn mint_stepper(minter: Seq<char>, now: u64) -> BatchStep {
    |w: TokenView, it: BatchItem| w.batch_mint_step(minter, it.0, it.1, now)
}

/// The step of a batch transfer from `from` at `now`.
pub open spec fn transfer_stepper(from: Seq<char>, now: u64) -> BatchStep {
    |w: TokenView, it: BatchItem| w.batch_transfer_step(from, it.0, it.1, now)
}

/// Every step of a batch mint that is reached computes without overflow.
pub open spec fn batch_mint_fits(v: TokenView, minter: Seq<char>, items: Seq<BatchItem>, now: u64) -> bool {
    forall|i: int| #![trigger items[i]] 0 <= i < items.len() ==>
        (run_steps(v, items.take(i), mint_stepper(minter, now)) matches Ok(w)
            ==> w.batch_mint_step_fits(minter, items[i].0, items[i].1, now))
}

/// Every step of a batch transfer that is reached computes without overflow.
pub open spec fn batch_transfer_fits(v: TokenView, from: Seq<char>, items: Seq<BatchItem>, now: u64) -> bool {
    forall|i: int| #![trigger items[i]] 0 <= i < items.len() ==>
        (run_steps(v, items.take(i), transfer_stepper(from, now)) matches Ok(w)
            ==> w.batch_transfer_step_fits(from, items[i].0, items[i].1, now))
}

impl TokenView {
    /// What `batch_mint` answers, with the ledger it leaves on success.
    pub open spec fn batch_mint_result(self, minter: Seq<char>, items: Seq<BatchItem>, now: u64) -> Result<TokenView, TokenCallError> {
        if !self.initialized() {
            Err(TokenCallError::Token(TokenError::NotInitialized))
        } else if self.is_paused() {
            Err(TokenCallError::Token(TokenError::ContractPaused))
        } else if !all_positive(items) {
            Err(TokenCallError::Token(TokenError::InvalidAmount))
        } else if !self.access.holds(Role::Minter, minter) {
            Err(TokenCallError::Access(AdminError::UnauthorizedRole))
        } else {
            match run_steps(self, items, mint_stepper(minter, now)) {
                Ok(w) => Ok(w),
                Err(e) => Err(TokenCallError::Token(e)),
            }
        }
    }

    /// Whether `batch_mint` reaches its mints.
    pub open spec fn batch_mint_reaches(self, minter: Seq<char>, items: Seq<BatchItem>) -> bool {
        self.initialized() && !self.is_paused() && all_positive(items) && self.access.holds(Role::Minter, minter)
    }

    /// What `batch_transfer` answers, with the ledger it leaves on success.
    pub open spec fn batch_transfer_result(self, from: Seq<char>, items: Seq<BatchItem>, now: u64) -> Result<TokenView, TokenError> {
        if !self.initialized() {
            Err(TokenError::NotInitialized)
        } else if self.is_paused() {
            Err(TokenError::ContractPaused)
        } else if !all_positive(items) || amount_total(items) > i128::MAX {
            Err(TokenError::InvalidAmount)
        } else if self.balance(from) < amount_total(items) {
            Err(TokenError::InsufficientBalance)
        } else {
            run_steps(self, items, transfer_stepper(from, now))
        }
    }

    /// Whether `batch_transfer` reaches its transfers.
    pub open spec fn batch_transfer_reaches(self, from: Seq<char>, items: Seq<BatchItem>) -> bool {
        &&& self.initialized() && !self.is_paused()
        &&& all_positive(items) && amount_total(items) <= i128::MAX
        &&& self.balance(from) >= amount_total(items)
    }
}

/// A transfer conserves the supply and the sum of the two balances it
/// touches: the sender loses the amount, the receiver gains it, and every
/// other balance stays as it was. A transfer to oneself changes nothing.
pub proof fn lemma_transfer_conserves(v: TokenView, from: Seq<char>, to: Seq<char>, amount: i128)
    requires
        amount > 0,
        v.balance(from) >= amount,
        !v.move_overflows(from, to, amount),
    ensures
        v.moved(from, to, amount).supply == v.supply,
        v.moved(from, to, amount).balance(from) + v.moved(from, to, amount).balance(to)
            == v.balance(from) + v.balance(to),
        from != to ==> v.moved(from, to, amount).balance(from) == v.balance(from) - amount,
        from != to ==> v.moved(from, to, amount).balance(to) == v.balance(to) + amount,
        from == to ==> v.moved(from, to, amount) == v,
        forall|a: Seq<char>| a != from && a != to ==> #[trigger] v.moved(from, to, amount).balance(a) == v.balance(a),
{
}

/// Minting raises the receiver's balance and the supply by the amount;
/// burning lowers the holder's balance and the supply by the amount; other
/// balances stay as they were.
pub proof fn lemma_mint_burn_amounts(v: TokenView, a: Seq<char>, amount: i128)
    requires
        amount > 0,
        v.supply_value() + amount <= i128::MAX,
        v.balance(a) + amount <= i128::MAX,
        v.supply_value() - amount >= i128::MIN,
        v.balance(a) - amount >= i128::MIN,
    ensures
        v.minted(a, amount).balance(a) == v.balance(a) + amount,
        v.minted(a, amount).supply_value() == v.supply_value() + amount,
        v.burned(a, amount).balance(a) == v.balance(a) - amount,
        v.burned(a, amount).supply_value() == v.supply_value() - amount,
        forall|b: Seq<char>| b != a ==> #[trigger] v.minted(a, amount).balance(b) == v.balance(b)
            && v.burned(a, amount).balance(b) == v.balance(b),
{
}

/// Burning what was just minted to the same holder gives back every balance
/// and the supply.
pub proof fn lemma_burn_undoes_mint(v: TokenView, a: Seq<char>, amount: i128)
    requires
        amount > 0,
        v.supply_value() + amount <= i128::MAX,
        v.balance(a) + amount <= i128::MAX,
    ensures
        forall|b: Seq<char>| #[trigger] v.minted(a, amount).burned(a, amount).balance(b) == v.balance(b),
        v.minted(a, amount).burned(a, amount).supply_value() == v.supply_value(),
{
}

/// A successful mint never takes the supply past the cap.
pub proof fn lemma_mint_respects_cap(v: TokenView, minter: Seq<char>, to: Seq<char>, amount: i128, now: u64)
    requires
        v.mint_result(minter, amount, now) is Ok,
    ensures
        v.rate_checked(minter, OPERATION_MINT@, now).minted(to, amount).supply_value() <= v.max_supply_value(),
{
}

/// After an approval, the allowance reads the approved amount until it
/// expires, and nothing after.
pub proof fn lemma_approve_then_allowance(v: TokenView, from: Seq<char>, spender: Seq<char>, amount: i128, exp: u32, sequence: u32)
    ensures
        ({
            let w = TokenView {
                allowances: v.allowances.insert((from, spender), AllowanceData { amount, expiration_ledger: exp }),
                ..v
            };
            w.allowance_value(from, spender, sequence) == if exp > 0 && sequence > exp { 0 } else { amount }
        }),
{
}

/// Spending from an allowance lowers it by the amount spent and keeps its
/// expiry.
pub proof fn lemma_allowance_spent(v: TokenView, from: Seq<char>, spender: Seq<char>, amount: i128, sequence: u32)
    requires
        0 < amount <= v.allowance_value(from, spender, sequence),
    ensures
        v.allowance_spent(from, spender, amount, sequence).allowance_value(from, spender, sequence)
            == v.allowance_value(from, spender, sequence) - amount,
        v.allowance_spent(from, spender, amount, sequence).allowance_data(from, spender).expiration_ledger
            == v.allowance_data(from, spender).expiration_ledger,
{
}

/// While the token is paused, every transfer, delegated transfer, burn and
/// mint of a positive amount is refused with `ContractPaused`.
pub proof fn lemma_paused_refuses(v: TokenView, a: Seq<char>, b: Seq<char>, amount: i128, now: u64, sequence: u32)
    requires
        v.initialized(),
        v.is_paused(),
        amount > 0,
    ensures
        v.transfer_result(a, amount, now) == Err::<(), TokenError>(TokenError::ContractPaused),
        v.transfer_from_result(a, b, amount, now, sequence) == Err::<(), TokenError>(TokenError::ContractPaused),
        v.burn_result(a, amount, now) == Err::<(), TokenError>(TokenError::ContractPaused),
        v.burn_from_result(a, b, amount, now, sequence) == Err::<(), TokenError>(TokenError::ContractPaused),
        v.mint_result(a, amount, now) == Err::<(), TokenCallError>(TokenCallError::Token(TokenError::ContractPaused)),
{
}

/// Rate-limit bookkeeping leaves balances, supply and allowances alone.
pub proof fn lemma_rate_check_frames(v: TokenView, a: Seq<char>, op: Seq<char>, now: u64)
    ensures
        v.rate_checked(a, op, now).balances == v.balances,
        v.rate_checked(a, op, now).supply == v.supply,
        v.rate_checked(a, op, now).allowances == v.allowances,
        v.rate_checked(a, op, now).access == v.access,
{
}

/// Unpausing right after pausing leaves the token unpaused with everything
/// else as it was.
pub proof fn lemma_unpause_undoes_pause(v: TokenView)
    ensures
        ({
            let paused = TokenView { paused: Some(true), ..v };
            let resumed = TokenView { paused: Some(false), ..paused };
            &&& paused.is_paused()
            &&& !resumed.is_paused()
            &&& resumed == TokenView { paused: Some(false), ..v }
        }),
{
}

/// A batch mint to a single recipient does what a single mint does.
pub proof fn lemma_batch_mint_single(v: TokenView, minter: Seq<char>, to: Seq<char>, amount: i128, now: u64)
    requires
        amount > 0,
    ensures
        ({
            let items = seq![(to, amount)];
            &&& v.batch_mint_result(minter, items, now) is Ok <==> v.mint_result(minter, amount, now) is Ok
            &&& v.mint_result(minter, amount, now) is Ok ==> v.batch_mint_result(minter, items, now)
                == Ok::<TokenView, TokenCallError>(v.rate_checked(minter, OPERATION_MINT@, now).minted(to, amount))
        }),
{
    let items = seq![(to, amount)];
    assert(items.drop_last() =~= Seq::<BatchItem>::empty());
    assert(items[0].1 > 0);
    assert(all_positive(items));
    reveal_with_fuel(run_steps, 2);
    assert(run_steps(v, items, mint_stepper(minter, now)) == v.batch_mint_step(minter, to, amount, now));
}

/// On an initialized, unpaused token whose rate limits allow the sender, a
/// transfer succeeds exactly when the amount is positive and at most the
/// sender's balance, so a holder can send its whole balance and no more; an
/// amount past the balance is refused for the balance. On success the
/// sender keeps its balance less the amount.
pub proof fn lemma_transfer_within_balance(v: TokenView, from: Seq<char>, to: Seq<char>, amount: i128, now: u64)
    requires
        v.initialized(),
        !v.is_paused(),
        v.rate_allowed(from, OPERATION_TRANSFER@, now),
    ensures
        v.transfer_result(from, amount, now) is Ok <==> 0 < amount <= v.balance(from),
        0 < v.balance(from) < amount ==> v.transfer_result(from, amount, now)
            == Err::<(), TokenError>(TokenError::InsufficientBalance),
        v.transfer_result(from, amount, now) is Ok && from != to ==>
            v.rate_checked(from, OPERATION_TRANSFER@, now).moved(from, to, amount).balance(from) == v.balance(from) - amount
            && v.rate_checked(from, OPERATION_TRANSFER@, now).moved(from, to, amount).balance(from) >= 0,
{
}

/// On an initialized, unpaused token whose rate limits allow the spender, a
/// delegated transfer succeeds exactly when the amount is positive and
/// covered both by the allowance and by the owner's balance; the whole
/// allowance and the whole balance can be spent.
pub proof fn lemma_transfer_from_within_allowance(v: TokenView, spender: Seq<char>, from: Seq<char>, amount: i128, now: u64, sequence: u32)
    requires
        v.initialized(),
        !v.is_paused(),
        v.rate_allowed(spender, OPERATION_TRANSFER_FROM@, now),
    ensures
        v.transfer_from_result(spender, from, amount, now, sequence) is Ok
            <==> 0 < amount && amount <= v.allowance_value(from, spender, sequence) && amount <= v.balance(from),
        0 < amount && amount > v.allowance_value(from, spender, sequence) ==>
            v.transfer_from_result(spender, from, amount, now, sequence)
                == Err::<(), TokenError>(TokenError::InsufficientAllowance),
{
}

/// On an initialized, unpaused token whose rate limits allow the holder, a
/// burn succeeds exactly when the amount is positive and at most the
/// holder's balance; a successful burn lowers balance and supply by it.
pub proof fn lemma_burn_within_balance(v: TokenView, from: Seq<char>, amount: i128, now: u64)
    requires
        v.initialized(),
        !v.is_paused(),
        v.rate_allowed(from, OPERATION_BURN@, now),
    ensures
        v.burn_result(from, amount, now) is Ok <==> 0 < amount <= v.balance(from),
        v.burn_result(from, amount, now) is Ok && v.supply_value() - amount >= i128::MIN ==>
            v.rate_checked(from, OPERATION_BURN@, now).burned(from, amount).balance(from) == v.balance(from) - amount
            && v.rate_checked(from, OPERATION_BURN@, now).burned(from, amount).supply_value() == v.supply_value() - amount,
{
}

/// On an initialized, unpaused token whose rate limits allow the spender, a
/// delegated burn succeeds exactly when the amount is positive and covered
/// both by the allowance and by the owner's balance.
pub proof fn lemma_burn_from_within_allowance(v: TokenView, spender: Seq<char>, from: Seq<char>, amount: i128, now: u64, sequence: u32)
    requires
        v.initialized(),
        !v.is_paused(),
        v.rate_allowed(spender, OPERATION_BURN_FROM@, now),
    ensures
        v.burn_from_result(spender, from, amount, now, sequence) is Ok
            <==> 0 < amount && amount <= v.allowance_value(from, spender, sequence) && amount <= v.balance(from),
{
}

/// On an initialized, unpaused token whose rate limits allow the minter, a
/// mint succeeds exactly when the amount is positive, the minter holds the
/// `Minter` role (an admin holds it too) and the new supply is at most the
/// cap, which may be reached exactly.
pub proof fn lemma_mint_within_cap(v: TokenView, minter: Seq<char>, amount: i128, now: u64)
    requires
        v.initialized(),
        !v.is_paused(),
        v.rate_allowed(minter, OPERATION_MINT@, now),
    ensures
        v.mint_result(minter, amount, now) is Ok <==> amount > 0 && v.access.holds(Role::Minter, minter)
            && v.supply_value() + amount <= v.max_supply_value(),
        amount > 0 && v.access.holds(Role::Minter, minter) && v.supply_value() + amount > v.max_supply_value() ==>
            v.mint_result(minter, amount, now) == Err::<(), TokenCallError>(TokenCallError::Token(TokenError::MaxSupplyExceeded)),
{
}

/// Every balance operation on a token that was never initialized is refused
/// with `NotInitialized`.
pub proof fn lemma_uninitialized_refuses(v: TokenView, a: Seq<char>, b: Seq<char>, amount: i128, now: u64, sequence: u32)
    requires
        !v.initialized(),
    ensures
        v.transfer_result(a, amount, now) == Err::<(), TokenError>(TokenError::NotInitialized),
        v.transfer_from_result(a, b, amount, now, sequence) == Err::<(), TokenError>(TokenError::NotInitialized),
        v.burn_result(a, amount, now) == Err::<(), TokenError>(TokenError::NotInitialized),
        v.burn_from_result(a, b, amount, now, sequence) == Err::<(), TokenError>(TokenError::NotInitialized),
        amount > 0 ==> v.mint_result(a, amount, now) == Err::<(), TokenCallError>(TokenCallError::Token(TokenError::NotInitialized)),
{
}

/// A batch transfer to a single recipient does what a single transfer does.
pub proof fn lemma_batch_transfer_single(v: TokenView, from: Seq<char>, to: Seq<char>, amount: i128, now: u64)
    requires
        amount > 0,
    ensures
        ({
            let items = seq![(to, amount)];
            &&& v.batch_transfer_result(from, items, now) is Ok <==> v.transfer_result(from, amount, now) is Ok
            &&& v.transfer_result(from, amount, now) is Ok ==> v.batch_transfer_result(from, items, now)
                == Ok::<TokenView, TokenError>(v.rate_checked(from, OPERATION_TRANSFER@, now).moved(from, to, amount))
        }),
{
    let items = seq![(to, amount)];
    assert(items.drop_last() =~= Seq::<BatchItem>::empty());
    assert(items[0].1 > 0);
    assert(all_positive(items));
    assert(amount_total(items) == amount) by {
        reveal_with_fuel(amount_total, 2);
    }
    reveal_with_fuel(run_steps, 2);
    assert(run_steps(v, items, transfer_stepper(from, now)) == v.batch_transfer_step(from, to, amount, now));
}

/// A batch transfer whose total is more than the sender's balance is
/// refused for the balance, whatever the order of its items.
pub proof fn lemma_batch_transfer_needs_total(v: TokenView, from: Seq<char>, items: Seq<BatchItem>, now: u64)
    requires
        v.initialized(),
        !v.is_paused(),
        all_positive(items),
        amount_total(items) <= i128::MAX,
        v.balance(from) < amount_total(items),
    ensures
        v.batch_transfer_result(from, items, now) == Err::<TokenView, TokenError>(TokenError::InsufficientBalance),
{
}

/// The amount a rate-limit check is given: negative amounts count as 0.
pub open spec fn rate_amount(amount: i128) -> u64 {
    if amount < 0 { 0 } else { amount as u64 }
}

fn to_rate_amount(amount: i128) -> (r: u64)
    ensures
        r == rate_amount(amount),
{
    if amount < 0 { 0 } else { amount as u64 }
}

/// Runs the rate-limit check of `operation` for `address`.
fn check_op_rate_limit(limits: &mut BcForgeRateLimit, address: &Address, operation: &str, amount: i128, now: u64) -> (r: bool)
    requires
        old(limits)@.check_fits(Some(address@), operation@),
    ensures
        r == (old(limits)@.verdict(Some(address@), operation@, now) is Allowed),
        final(limits)@ == (RateLimitView {
            global_counts: old(limits)@.global_counts_after(operation@, now),
            address_counts: old(limits)@.address_counts_after(Some(address@), operation@, now),
            ..old(limits)@
        }),
{
    let amount_u64 = to_rate_amount(amount);
    let op = operation.to_owned();
    limits.internal_check_rate_limit(Some(address), &op, amount_u64, now)
}

/// Checks a mint of `amount` by `address` against the rate limits.
pub fn check_mint_rate_limit(limits: &mut BcForgeRateLimit, address: &Address, amount: i128, now: u64) -> (r: bool)
    requires
        old(limits)@.check_fits(Some(address@), OPERATION_MINT@),
    ensures
        r == (old(limits)@.verdict(Some(address@), OPERATION_MINT@, now) is Allowed),
        final(limits)@ == (RateLimitView {
            global_counts: old(limits)@.global_counts_after(OPERATION_MINT@, now),
            address_counts: old(limits)@.address_counts_after(Some(address@), OPERATION_MINT@, now),
            ..old(limits)@
        }),
{
    check_op_rate_limit(limits, address, OPERATION_MINT, amount, now)
}

/// Checks a transfer of `amount` from `from` against the rate limits.
pub fn check_transfer_rate_limit(limits: &mut BcForgeRateLimit, from: &Address, amount: i128, now: u64) -> (r: bool)
    requires
        old(limits)@.check_fits(Some(from@), OPERATION_TRANSFER@),
    ensures
        r == (old(limits)@.verdict(Some(from@), OPERATION_TRANSFER@, now) is Allowed),
        final(limits)@ == (RateLimitView {
            global_counts: old(limits)@.global_counts_after(OPERATION_TRANSFER@, now),
            address_counts: old(limits)@.address_counts_after(Some(from@), OPERATION_TRANSFER@, now),
            ..old(limits)@
        }),
{
    check_op_rate_limit(limits, from, OPERATION_TRANSFER, amount, now)
}

/// Checks a delegated transfer of `amount` by `spender` against the rate
/// limits.
pub fn check_transfer_from_rate_limit(limits: &mut BcForgeRateLimit, spender: &Address, amount: i128, now: u64) -> (r: bool)
    requires
        old(limits)@.check_fits(Some(spender@), OPERATION_TRANSFER_FROM@),
    ensures
        r == (old(limits)@.verdict(Some(spender@), OPERATION_TRANSFER_FROM@, now) is Allowed),
        final(limits)@ == (RateLimitView {
            global_counts: old(limits)@.global_counts_after(OPERATION_TRANSFER_FROM@, now),
            address_counts: old(limits)@.address_counts_after(Some(spender@), OPERATION_TRANSFER_FROM@, now),
            ..old(limits)@
        }),
{
    check_op_rate_limit(limits, spender, OPERATION_TRANSFER_FROM, amount, now)
}

/// Checks a burn of `amount` by `from` against the rate limits.
pub fn check_burn_rate_limit(limits: &mut BcForgeRateLimit, from: &Address, amount: i128, now: u64) -> (r: bool)
    requires
        old(limits)@.check_fits(Some(from@), OPERATION_BURN@),
    ensures
        r == (old(limits)@.verdict(Some(from@), OPERATION_BURN@, now) is Allowed),
        final(limits)@ == (RateLimitView {
            global_counts: old(limits)@.global_counts_after(OPERATION_BURN@, now),
            address_counts: old(limits)@.address_counts_after(Some(from@), OPERATION_BURN@, now),
            ..old(limits)@
        }),
{
    check_op_rate_limit(limits, from, OPERATION_BURN, amount, now)
}

/// Checks a delegated burn of `amount` by `spender` against the rate limits.
pub fn check_burn_from_rate_limit(limits: &mut BcForgeRateLimit, spender: &Address, amount: i128, now: u64) -> (r: bool)
    requires
        old(limits)@.check_fits(Some(spender@), OPERATION_BURN_FROM@),
    ensures
        r == (old(limits)@.verdict(Some(spender@), OPERATION_BURN_FROM@, now) is Allowed),
        final(limits)@ == (RateLimitView {
            global_counts: old(limits)@.global_counts_after(OPERATION_BURN_FROM@, now),
            address_counts: old(limits)@.address_counts_after(Some(spender@), OPERATION_BURN_FROM@, now),
            ..old(limits)@
        }),
{
    check_op_rate_limit(limits, spender, OPERATION_BURN_FROM, amount, now)
}

/// Whether the rate limits would allow `operation` by `address` at `now`.
fn rate_allows(limits: &BcForgeRateLimit, address: &Address, operation: &str, now: u64) -> (r: bool)
    requires
        limits@.check_fits(Some(address@), operation@),
    ensures
        r == (limits@.verdict(Some(address@), operation@, now) is Allowed),
{
    let op = operation.to_owned();
    match limits.peek_verdict(Some(address), &op, now) {
        RateLimitVerdict::Allowed => true,
        _ => false,
    }
}

impl BcForgeToken {
    /// A token that was never initialized.
    pub fn new() -> (r: BcForgeToken)
        ensures
            !r@.initialized(),
            r@ == (TokenView {
                balances: Map::empty(),
                allowances: Map::empty(),
                decimals: None,
                name: None,
                symbol: None,
                supply: None,
                max_supply: None,
                treasury: None,
                fee_config: None,
                fee_exemptions: Map::empty(),
                access: AccessView {
                    admin: None,
                    role_masks: Map::empty(),
                    legacy_roles: Map::empty(),
                    super_admins: Map::empty(),
                },
                paused: None,
                rate_limits: RateLimitView {
                    global_limits: Map::empty(),
                    address_limits: Map::empty(),
                    global_counts: Map::empty(),
                    address_counts: Map::empty(),
                },
            }),
    {
        BcForgeToken {
            balances: LedgerMap::new(),
            allowances: LedgerMap::new(),
            decimals: None,
            name: None,
            symbol: None,
            supply: None,
            max_supply: None,
            treasury: None,
            fee_config: None,
            fee_exemptions: LedgerMap::new(),
            access: AccessControl::new(),
            lifecycle: Lifecycle::new(),
            rate_limits: BcForgeRateLimit::new(),
        }
    }

    fn ensure_initialized(&self) -> (r: Result<(), TokenError>)
        ensures
            r == (if self@.initialized() { Ok(()) } else { Err(TokenError::NotInitialized) }),
    {
        if has_admin(&self.access) {
            Ok(())
        } else {
            Err(TokenError::NotInitialized)
        }
    }

    fn ensure_not_paused(&self) -> (r: Result<(), TokenError>)
        ensures
            r == (if self@.is_paused() { Err(TokenError::ContractPaused) } else { Ok(()) }),
    {
        if is_paused(&self.lifecycle) {
            Err(TokenError::ContractPaused)
        } else {
            Ok(())
        }
    }

    fn read_balance(&self, address: &Address) -> (r: i128)
        ensures
            r == self@.balance(address@),
    {
        match self.balances.get(address) {
            Some(b) => *b,
            None => 0,
        }
    }

    fn read_supply(&self) -> (r: i128)
        ensures
            r == self@.supply_value(),
    {
        match self.supply {
            Some(s) => s,
            None => 0,
        }
    }

    fn read_max_supply(&self) -> (r: i128)
        ensures
            r == self@.max_supply_value(),
    {
        match self.max_supply {
            Some(s) => s,
            None => i128::MAX,
        }
    }

    fn read_allowance_data(&self, from: &Address, spender: &Address) -> (r: AllowanceData)
        ensures
            r == self@.allowance_data(from@, spender@),
    {
        match self.allowances.get(&(from.duplicate(), spender.duplicate())) {
            Some(d) => *d,
            None => AllowanceData { amount: 0, expiration_ledger: 0 },
        }
    }

    fn allowance_amount(&self, from: &Address, spender: &Address, sequence: u32) -> (r: i128)
        ensures
            r == self@.allowance_value(from@, spender@, sequence),
    {
        let data = self.read_allowance_data(from, spender);
        if data.expiration_ledger > 0 && sequence > data.expiration_ledger {
            0
        } else {
            data.amount
        }
    }

    /// Initializes the token: `admin_address` becomes the admin, metadata is
    /// stored, the supply starts at 0 and the cap is unbounded.
    pub fn initialize(&mut self, admin_address: &Address, decimal: u32, name: String, symbol: String) -> (r: Result<(), TokenCallError>)
        ensures
            r == (if old(self)@.initialized() {
                Err(TokenCallError::Token(TokenError::AlreadyInitialized))
            } else if admin_address@ == zero_address_view() {
                Err(TokenCallError::Access(AdminError::InvalidAddress))
            } else if set_admin_conflicts(&old(self).access, admin_address@) {
                Err(TokenCallError::Access(AdminError::RoleAlreadyGranted))
            } else {
                Ok(())
            }),
            r is Err ==> final(self)@ == old(self)@,
            r is Ok ==> set_admin_post(&old(self).access, &final(self).access, admin_address@)
                && final(self)@ == (TokenView {
                    decimals: Some(decimal),
                    name: Some(name@),
                    symbol: Some(symbol@),
                    supply: Some(0),
                    max_supply: Some(i128::MAX),
                    access: final(self)@.access,
                    ..old(self)@
                }),
    {
        if has_admin(&self.access) {
            return Err(TokenCallError::Token(TokenError::AlreadyInitialized));
        }
        match set_admin(&mut self.access, admin_address) {
            Ok(()) => {},
            Err(e) => {
                return Err(TokenCallError::Access(e));
            },
        }
        self.decimals = Some(decimal);
        self.name = Some(name);
        self.symbol = Some(symbol);
        self.supply = Some(0);
        self.max_supply = Some(i128::MAX);
        Ok(())
    }

    /// The admin address.
    pub fn admin(&self) -> (r: Result<&Address, TokenError>)
        ensures
            self@.initialized() ==> (r matches Ok(a) && Some(a@) == self@.access.admin),
            !self@.initialized() ==> r == Err::<&Address, TokenError>(TokenError::NotInitialized),
    {
        self.ensure_initialized()?;
        Ok(get_admin(&self.access))
    }

    /// The total supply.
    pub fn supply(&self) -> (r: Result<i128, TokenError>)
        ensures
            r == (if self@.initialized() { Ok(self@.supply_value()) } else { Err(TokenError::NotInitialized) }),
    {
        self.ensure_initialized()?;
        Ok(self.read_supply())
    }

    /// The supply cap.
    pub fn get_max_supply(&self) -> (r: Result<i128, TokenError>)
        ensures
            r == (if self@.initialized() { Ok(self@.max_supply_value()) } else { Err(TokenError::NotInitialized) }),
    {
        self.ensure_initialized()?;
        Ok(self.read_max_supply())
    }

    /// Sets the supply cap; `caller` must hold the `Minter` role.
    pub fn set_max_supply(&mut self, caller: &Address, max_supply: i128) -> (r: Result<(), TokenCallError>)
        ensures
            r == (if !old(self)@.initialized() {
                Err(TokenCallError::Token(TokenError::NotInitialized))
            } else if max_supply < 0 {
                Err(TokenCallError::Token(TokenError::InvalidAmount))
            } else if !old(self)@.access.holds(Role::Minter, caller@) {
                Err(TokenCallError::Access(AdminError::UnauthorizedRole))
            } else {
                Ok(())
            }),
            r is Err ==> final(self)@ == old(self)@,
            r is Ok ==> final(self)@ == (TokenView { max_supply: Some(max_supply), ..old(self)@ }),
    {
        if self.ensure_initialized().is_err() {
            return Err(TokenCallError::Token(TokenError::NotInitialized));
        }
        if max_supply < 0 {
            return Err(TokenCallError::Token(TokenError::InvalidAmount));
        }
        if require_minter(&self.access, caller).is_err() {
            return Err(TokenCallError::Access(AdminError::UnauthorizedRole));
        }
        self.max_supply = Some(max_supply);
        Ok(())
    }

    /// Moves the admin role from the current admin to `new_admin`.
    pub fn transfer_ownership(&mut self, new_admin: &Address) -> (r: Result<(), TokenCallError>)
        ensures
            r == (if !old(self)@.initialized() {
                Err(TokenCallError::Token(TokenError::NotInitialized))
            } else if !old(self)@.access.holds(Role::Admin, old(self)@.access.admin.unwrap()) {
                Err(TokenCallError::Access(AdminError::UnauthorizedRole))
            } else if new_admin@ == zero_address_view() {
                Err(TokenCallError::Access(AdminError::InvalidAddress))
            } else if set_admin_conflicts(&old(self).access, new_admin@) {
                Err(TokenCallError::Access(AdminError::RoleAlreadyGranted))
            } else {
                Ok(())
            }),
            r is Err ==> final(self)@ == old(self)@,
            r is Ok ==> set_admin_post(&old(self).access, &final(self).access, new_admin@)
                && final(self)@ == (TokenView { access: final(self)@.access, ..old(self)@ }),
    {
        if self.ensure_initialized().is_err() {
            return Err(TokenCallError::Token(TokenError::NotInitialized));
        }
        let current_admin = get_admin(&self.access).duplicate();
        if require_admin(&self.access, &current_admin).is_err() {
            return Err(TokenCallError::Access(AdminError::UnauthorizedRole));
        }
        match set_admin(&mut self.access, new_admin) {
            Ok(()) => Ok(()),
            Err(e) => Err(TokenCallError::Access(e)),
        }
    }

    /// Pauses the token as `caller`, who must hold the `Pauser` role.
    pub fn pause_as(&mut self, caller: &Address) -> (r: Result<(), TokenCallError>)
        ensures
            r == (if !old(self)@.initialized() {
                Err(TokenCallError::Token(TokenError::NotInitialized))
            } else if old(self)@.is_paused() {
                Err(TokenCallError::Token(TokenError::AlreadyPaused))
            } else if !old(self)@.access.holds(Role::Pauser, caller@) {
                Err(TokenCallError::Access(AdminError::UnauthorizedRole))
            } else {
                Ok(())
            }),
            r is Err ==> final(self)@ == old(self)@,
            r is Ok ==> final(self)@ == (TokenView { paused: Some(true), ..old(self)@ }),
    {
        if self.ensure_initialized().is_err() {
            return Err(TokenCallError::Token(TokenError::NotInitialized));
        }
        if is_paused(&self.lifecycle) {
            return Err(TokenCallError::Token(TokenError::AlreadyPaused));
        }
        match crate::lifecycle::pause(&mut self.lifecycle, &self.access, caller) {
            Ok(()) => Ok(()),
            Err(_) => Err(TokenCallError::Access(AdminError::UnauthorizedRole)),
        }
    }

    /// Unpauses the token as `caller`, who must hold the `Pauser` role.
    pub fn unpause_as(&mut self, caller: &Address) -> (r: Result<(), TokenCallError>)
        ensures
            r == (if !old(self)@.initialized() {
                Err(TokenCallError::Token(TokenError::NotInitialized))
            } else if !old(self)@.is_paused() {
                Err(TokenCallError::Token(TokenError::NotPaused))
            } else if !old(self)@.access.holds(Role::Pauser, caller@) {
                Err(TokenCallError::Access(AdminError::UnauthorizedRole))
            } else {
                Ok(())
            }),
            r is Err ==> final(self)@ == old(self)@,
            r is Ok ==> final(self)@ == (TokenView { paused: Some(false), ..old(self)@ }),
    {
        if self.ensure_initialized().is_err() {
            return Err(TokenCallError::Token(TokenError::NotInitialized));
        }
        if !is_paused(&self.lifecycle) {
            return Err(TokenCallError::Token(TokenError::NotPaused));
        }
        match crate::lifecycle::unpause(&mut self.lifecycle, &self.access, caller) {
            Ok(()) => Ok(()),
            Err(_) => Err(TokenCallError::Access(AdminError::UnauthorizedRole)),
        }
    }

    /// Pauses the token as its admin.
    pub fn pause(&mut self) -> (r: Result<(), TokenCallError>)
        ensures
            r == (if !old(self)@.initialized() {
                Err(TokenCallError::Token(TokenError::NotInitialized))
            } else if old(self)@.is_paused() {
                Err(TokenCallError::Token(TokenError::AlreadyPaused))
            } else if !old(self)@.access.holds(Role::Pauser, old(self)@.access.admin.unwrap()) {
                Err(TokenCallError::Access(AdminError::UnauthorizedRole))
            } else {
                Ok(())
            }),
            r is Err ==> final(self)@ == old(self)@,
            r is Ok ==> final(self)@ == (TokenView { paused: Some(true), ..old(self)@ }),
    {
        if self.ensure_initialized().is_err() {
            return Err(TokenCallError::Token(TokenError::NotInitialized));
        }
        let admin_address = get_admin(&self.access).duplicate();
        self.pause_as(&admin_address)
    }

    /// Unpauses the token as its admin.
    pub fn unpause(&mut self) -> (r: Result<(), TokenCallError>)
        ensures
            r == (if !old(self)@.initialized() {
                Err(TokenCallError::Token(TokenError::NotInitialized))
            } else if !old(self)@.is_paused() {
                Err(TokenCallError::Token(TokenError::NotPaused))
            } else if !old(self)@.access.holds(Role::Pauser, old(self)@.access.admin.unwrap()) {
                Err(TokenCallError::Access(AdminError::UnauthorizedRole))
            } else {
                Ok(())
            }),
            r is Err ==> final(self)@ == old(self)@,
            r is Ok ==> final(self)@ == (TokenView { paused: Some(false), ..old(self)@ }),
    {
        if self.ensure_initialized().is_err() {
            return Err(TokenCallError::Token(TokenError::NotInitialized));
        }
        let admin_address = get_admin(&self.access).duplicate();
        self.unpause_as(&admin_address)
    }

    /// Authorizes a WASM upgrade by `upgrader`, who must hold the
    /// `SuperAdmin` role; installing the WASM is left to the caller.
    pub fn upgrade(&self, upgrader: &Address) -> (r: Result<(), TokenCallError>)
        ensures
            r == (if !self@.initialized() {
                Err(TokenCallError::Token(TokenError::NotInitialized))
            } else if !self@.access.holds(Role::SuperAdmin, upgrader@) {
                Err(TokenCallError::Access(AdminError::UnauthorizedRole))
            } else {
                Ok(())
            }),
    {
        if self.ensure_initialized().is_err() {
            return Err(TokenCallError::Token(TokenError::NotInitialized));
        }
        if require_super_admin(&self.access, upgrader).is_err() {
            return Err(TokenCallError::Access(AdminError::UnauthorizedRole));
        }
        Ok(())
    }

    /// Sets the fee configuration; `caller` must hold the `Admin` role and
    /// neither fee may be negative.
    pub fn set_fee_config(&mut self, caller: &Address, config: FeeConfig) -> (r: Result<(), TokenCallError>)
        ensures
            r == (if !old(self)@.initialized() {
                Err(TokenCallError::Token(TokenError::NotInitialized))
            } else if !old(self)@.access.holds(Role::Admin, caller@) {
                Err(TokenCallError::Access(AdminError::UnauthorizedRole))
            } else if config.base_fee < 0 || config.max_fee < 0 {
                Err(TokenCallError::Token(TokenError::InvalidAmount))
            } else {
                Ok(())
            }),
            r is Err ==> final(self)@ == old(self)@,
            r is Ok ==> final(self)@ == (TokenView { fee_config: Some(config), ..old(self)@ }),
    {
        if self.ensure_initialized().is_err() {
            return Err(TokenCallError::Token(TokenError::NotInitialized));
        }
        if require_admin(&self.access, caller).is_err() {
            return Err(TokenCallError::Access(AdminError::UnauthorizedRole));
        }
        if config.base_fee < 0 || config.max_fee < 0 {
            return Err(TokenCallError::Token(TokenError::InvalidAmount));
        }
        self.fee_config = Some(config);
        Ok(())
    }

    /// The fee configuration.
    pub fn get_fee_config(&self) -> (r: Result<FeeConfig, TokenError>)
        ensures
            r == (if !self@.initialized() {
                Err(TokenError::NotInitialized)
            } else {
                match self@.fee_config {
                    Some(c) => Ok(c),
                    None => Err(TokenError::FeeNotConfigured),
                }
            }),
    {
        self.ensure_initialized()?;
        match self.fee_config {
            Some(c) => Ok(c),
            None => Err(TokenError::FeeNotConfigured),
        }
    }

    /// Sets the treasury; `caller` must hold the `Admin` role.
    pub fn set_treasury(&mut self, caller: &Address, treasury: &Address) -> (r: Result<(), TokenCallError>)
        ensures
            r == (if !old(self)@.initialized() {
                Err(TokenCallError::Token(TokenError::NotInitialized))
            } else if !old(self)@.access.holds(Role::Admin, caller@) {
                Err(TokenCallError::Access(AdminError::UnauthorizedRole))
            } else {
                Ok(())
            }),
            r is Err ==> final(self)@ == old(self)@,
            r is Ok ==> final(self)@ == (TokenView { treasury: Some(treasury@), ..old(self)@ }),
    {
        if self.ensure_initialized().is_err() {
            return Err(TokenCallError::Token(TokenError::NotInitialized));
        }
        if require_admin(&self.access, caller).is_err() {
            return Err(TokenCallError::Access(AdminError::UnauthorizedRole));
        }
        self.treasury = Some(treasury.duplicate());
        Ok(())
    }

    /// The treasury.
    pub fn get_treasury(&self) -> (r: Result<&Address, TokenError>)
        ensures
            !self@.initialized() ==> r == Err::<&Address, TokenError>(TokenError::NotInitialized),
            self@.initialized() && self@.treasury is None ==> r == Err::<&Address, TokenError>(TokenError::FeeNotConfigured),
            self@.initialized() && self@.treasury is Some ==> (r matches Ok(a) && Some(a@) == self@.treasury),
    {
        self.ensure_initialized()?;
        match &self.treasury {
            Some(t) => Ok(t),
            None => Err(TokenError::FeeNotConfigured),
        }
    }

    /// Sets the fee exemption of `address`; `caller` must hold `Admin`.
    pub fn set_fee_exemption(&mut self, caller: &Address, address: &Address, exemption: FeeExemption) -> (r: Result<(), TokenCallError>)
        ensures
            r == (if !old(self)@.initialized() {
                Err(TokenCallError::Token(TokenError::NotInitialized))
            } else if !old(self)@.access.holds(Role::Admin, caller@) {
                Err(TokenCallError::Access(AdminError::UnauthorizedRole))
            } else {
                Ok(())
            }),
            r is Err ==> final(self)@ == old(self)@,
            r is Ok ==> final(self)@ == (TokenView {
                fee_exemptions: old(self)@.fee_exemptions.insert(address@, exemption),
                ..old(self)@
            }),
    {
        if self.ensure_initialized().is_err() {
            return Err(TokenCallError::Token(TokenError::NotInitialized));
        }
        if require_admin(&self.access, caller).is_err() {
            return Err(TokenCallError::Access(AdminError::UnauthorizedRole));
        }
        self.fee_exemptions.set(address.duplicate(), exemption);
        Ok(())
    }

    /// Removes the fee exemption of `address`; `caller` must hold `Admin`.
    pub fn remove_fee_exemption(&mut self, caller: &Address, address: &Address) -> (r: Result<(), TokenCallError>)
        ensures
            r == (if !old(self)@.initialized() {
                Err(TokenCallError::Token(TokenError::NotInitialized))
            } else if !old(self)@.access.holds(Role::Admin, caller@) {
                Err(TokenCallError::Access(AdminError::UnauthorizedRole))
            } else {
                Ok(())
            }),
            r is Err ==> final(self)@ == old(self)@,
            r is Ok ==> final(self)@ == (TokenView {
                fee_exemptions: old(self)@.fee_exemptions.remove(address@),
                ..old(self)@
            }),
    {
        if self.ensure_initialized().is_err() {
            return Err(TokenCallError::Token(TokenError::NotInitialized));
        }
        if require_admin(&self.access, caller).is_err() {
            return Err(TokenCallError::Access(AdminError::UnauthorizedRole));
        }
        self.fee_exemptions.remove(address);
        Ok(())
    }

    /// The allowance of `spender` over `from`'s tokens at ledger `sequence`.
    pub fn allowance(&self, from: &Address, spender: &Address, sequence: u32) -> (r: Result<i128, TokenError>)
        ensures
            r == (if self@.initialized() {
                Ok(self@.allowance_value(from@, spender@, sequence))
            } else {
                Err(TokenError::NotInitialized)
            }),
    {
        self.ensure_initialized()?;
        Ok(self.allowance_amount(from, spender, sequence))
    }

    /// Sets the allowance of `spender` over `from`'s tokens to `amount`,
    /// valid through ledger `exp` (0 = no expiry).
    pub fn approve(&mut self, from: &Address, spender: &Address, amount: i128, exp: u32) -> (r: Result<(), TokenError>)
        ensures
            r == (if !old(self)@.initialized() {
                Err(TokenError::NotInitialized)
            } else if amount < 0 {
                Err(TokenError::InvalidAmount)
            } else {
                Ok(())
            }),
            r is Err ==> final(self)@ == old(self)@,
            r is Ok ==> final(self)@ == (TokenView {
                allowances: old(self)@.allowances.insert((from@, spender@),
                    AllowanceData { amount, expiration_ledger: exp }),
                ..old(self)@
            }),
    {
        self.ensure_initialized()?;
        if amount < 0 {
            return Err(TokenError::InvalidAmount);
        }
        self.allowances.set((from.duplicate(), spender.duplicate()), AllowanceData { amount, expiration_ledger: exp });
        Ok(())
    }

    /// The balance of `id`.
    pub fn balance(&self, id: &Address) -> (r: Result<i128, TokenError>)
        ensures
            r == (if self@.initialized() { Ok(self@.balance(id@)) } else { Err(TokenError::NotInitialized) }),
    {
        self.ensure_initialized()?;
        Ok(self.read_balance(id))
    }

    /// The number of decimals (7 unless set).
    pub fn decimals(&self) -> (r: Result<u32, TokenError>)
        ensures
            r == (if !self@.initialized() {
                Err(TokenError::NotInitialized)
            } else {
                Ok(match self@.decimals { Some(d) => d, None => 7 })
            }),
    {
        self.ensure_initialized()?;
        match self.decimals {
            Some(d) => Ok(d),
            None => Ok(7),
        }
    }

    /// The token name ("bc-forge" unless set).
    pub fn name(&self) -> (r: Result<String, TokenError>)
        ensures
            !self@.initialized() ==> r == Err::<String, TokenError>(TokenError::NotInitialized),
            self@.initialized() ==> (r matches Ok(n) && n@ == match self@.name {
                Some(x) => x,
                None => "bc-forge"@,
            }),
    {
        self.ensure_initialized()?;
        match &self.name {
            Some(n) => Ok(n.clone()),
            None => Ok("bc-forge".to_owned()),
        }
    }

    /// The token symbol ("SFG" unless set).
    pub fn symbol(&self) -> (r: Result<String, TokenError>)
        ensures
            !self@.initialized() ==> r == Err::<String, TokenError>(TokenError::NotInitialized),
            self@.initialized() ==> (r matches Ok(n) && n@ == match self@.symbol {
                Some(x) => x,
                None => "SFG"@,
            }),
    {
        self.ensure_initialized()?;
        match &self.symbol {
            Some(n) => Ok(n.clone()),
            None => Ok("SFG".to_owned()),
        }
    }
}

impl BcForgeToken {
    fn write_balance(&mut self, address: &Address, amount: i128)
        ensures
            final(self)@ == (TokenView { balances: old(self)@.balances.insert(address@, amount), ..old(self)@ }),
    {
        self.balances.set(address.duplicate(), amount);
    }

    fn write_allowance(&mut self, from: &Address, spender: &Address, amount: i128, exp: u32)
        ensures
            final(self)@ == (TokenView {
                allowances: old(self)@.allowances.insert((from@, spender@),
                    AllowanceData { amount, expiration_ledger: exp }),
                ..old(self)@
            }),
    {
        self.allowances.set((from.duplicate(), spender.duplicate()), AllowanceData { amount, expiration_ledger: exp });
    }

    /// Moves `amount` from `from` to `to`; a move to oneself changes nothing.
    fn move_balance(&mut self, from: &Address, to: &Address, amount: i128) -> (r: Result<(), TokenError>)
        requires
            amount > 0,
            !old(self)@.move_overflows(from@, to@, amount),
        ensures
            r == (if old(self)@.balance(from@) < amount { Err(TokenError::InsufficientBalance) } else { Ok(()) }),
            r is Err ==> final(self)@ == old(self)@,
            r is Ok ==> final(self)@ == old(self)@.moved(from@, to@, amount),
    {
        let from_balance = self.read_balance(from);
        if from_balance < amount {
            return Err(TokenError::InsufficientBalance);
        }
        if !from.same(to) {
            let to_balance = self.read_balance(to);
            self.write_balance(from, from_balance - amount);
            self.write_balance(to, to_balance + amount);
        }
        Ok(())
    }

    /// Mints `amount` to `to` within the supply cap.
    fn internal_mint(&mut self, to: &Address, amount: i128) -> (r: Result<(), TokenError>)
        requires
            amount > 0 ==> !old(self)@.mint_overflows(to@, amount),
        ensures
            r == old(self)@.supply_check(amount),
            r is Err ==> final(self)@ == old(self)@,
            r is Ok ==> final(self)@ == old(self)@.minted(to@, amount),
    {
        if amount <= 0 {
            return Err(TokenError::InvalidAmount);
        }
        let max_supply = self.read_max_supply();
        let new_supply = self.read_supply() + amount;
        if new_supply > max_supply {
            return Err(TokenError::MaxSupplyExceeded);
        }
        let new_balance = self.read_balance(to) + amount;
        self.write_balance(to, new_balance);
        self.supply = Some(new_supply);
        Ok(())
    }

    /// Mints `amount` to `to` as `minter`, who must hold the `Minter` role,
    /// within the mint rate limits and the supply cap.
    pub fn mint(&mut self, minter: &Address, to: &Address, amount: i128, now: u64) -> (r: Result<(), TokenCallError>)
        requires
            old(self)@.open_for(amount) && old(self)@.access.holds(Role::Minter, minter@)
                ==> old(self)@.rate_limits.check_fits(Some(minter@), OPERATION_MINT@),
            old(self)@.open_for(amount) && old(self)@.access.holds(Role::Minter, minter@)
                && old(self)@.rate_allowed(minter@, OPERATION_MINT@, now)
                ==> !old(self)@.mint_overflows(to@, amount),
        ensures
            r == old(self)@.mint_result(minter@, amount, now),
            r is Err ==> final(self)@ == old(self)@,
            r is Ok ==> final(self)@ == old(self)@.rate_checked(minter@, OPERATION_MINT@, now).minted(to@, amount),
    {
        if amount <= 0 {
            return Err(TokenCallError::Token(TokenError::InvalidAmount));
        }
        if self.ensure_initialized().is_err() {
            return Err(TokenCallError::Token(TokenError::NotInitialized));
        }
        if self.ensure_not_paused().is_err() {
            return Err(TokenCallError::Token(TokenError::ContractPaused));
        }
        if require_minter(&self.access, minter).is_err() {
            return Err(TokenCallError::Access(AdminError::UnauthorizedRole));
        }
        if !rate_allows(&self.rate_limits, minter, OPERATION_MINT, now) {
            return Err(TokenCallError::Token(TokenError::InvalidAmount));
        }
        match self.internal_mint(to, amount) {
            Ok(()) => {},
            Err(e) => {
                return Err(TokenCallError::Token(e));
            },
        }
        check_mint_rate_limit(&mut self.rate_limits, minter, amount, now);
        Ok(())
    }

    /// Transfers `amount` from `from` to `to`, within the transfer rate
    /// limits of `from`.
    pub fn transfer(&mut self, from: &Address, to: &Address, amount: i128, now: u64) -> (r: Result<(), TokenError>)
        requires
            old(self)@.open_for(amount) ==> old(self)@.rate_limits.check_fits(Some(from@), OPERATION_TRANSFER@),
            old(self)@.open_for(amount) && old(self)@.rate_allowed(from@, OPERATION_TRANSFER@, now)
                ==> !old(self)@.move_overflows(from@, to@, amount),
        ensures
            r == old(self)@.transfer_result(from@, amount, now),
            r is Err ==> final(self)@ == old(self)@,
            r is Ok ==> final(self)@ == old(self)@.rate_checked(from@, OPERATION_TRANSFER@, now).moved(from@, to@, amount),
    {
        self.ensure_initialized()?;
        self.ensure_not_paused()?;
        if amount <= 0 {
            return Err(TokenError::InvalidAmount);
        }
        if !rate_allows(&self.rate_limits, from, OPERATION_TRANSFER, now) {
            return Err(TokenError::InvalidAmount);
        }
        self.move_balance(from, to, amount)?;
        check_transfer_rate_limit(&mut self.rate_limits, from, amount, now);
        Ok(())
    }

    /// Transfers `amount` from `from` to `to` on behalf of `spender`, out of
    /// the allowance `from` gave `spender` as it stands at ledger `sequence`.
    pub fn transfer_from(&mut self, spender: &Address, from: &Address, to: &Address, amount: i128, now: u64, sequence: u32) -> (r: Result<(), TokenError>)
        requires
            old(self)@.open_for(amount) ==> old(self)@.rate_limits.check_fits(Some(spender@), OPERATION_TRANSFER_FROM@),
            old(self)@.open_for(amount) && old(self)@.rate_allowed(spender@, OPERATION_TRANSFER_FROM@, now)
                && old(self)@.allowance_value(from@, spender@, sequence) >= amount
                ==> !old(self)@.move_overflows(from@, to@, amount),
        ensures
            r == old(self)@.transfer_from_result(spender@, from@, amount, now, sequence),
            r is Err ==> final(self)@ == old(self)@,
            r is Ok ==> final(self)@ == old(self)@.rate_checked(spender@, OPERATION_TRANSFER_FROM@, now)
                .moved(from@, to@, amount).allowance_spent(from@, spender@, amount, sequence),
    {
        self.ensure_initialized()?;
        self.ensure_not_paused()?;
        if amount <= 0 {
            return Err(TokenError::InvalidAmount);
        }
        if !rate_allows(&self.rate_limits, spender, OPERATION_TRANSFER_FROM, now) {
            return Err(TokenError::InvalidAmount);
        }
        let allowance = self.allowance_amount(from, spender, sequence);
        if allowance < amount {
            return Err(TokenError::InsufficientAllowance);
        }
        let allowance_data = self.read_allowance_data(from, spender);
        self.move_balance(from, to, amount)?;
        self.write_allowance(from, spender, allowance - amount, allowance_data.expiration_ledger);
        check_transfer_from_rate_limit(&mut self.rate_limits, spender, amount, now);
        Ok(())
    }

    /// Burns `amount` of `from`'s balance, lowering the supply by as much.
    pub fn burn(&mut self, from: &Address, amount: i128, now: u64) -> (r: Result<(), TokenError>)
        requires
            old(self)@.open_for(amount) ==> old(self)@.rate_limits.check_fits(Some(from@), OPERATION_BURN@),
            old(self)@.open_for(amount) && old(self)@.rate_allowed(from@, OPERATION_BURN@, now)
                ==> !old(self)@.burn_overflows(from@, amount),
        ensures
            r == old(self)@.burn_result(from@, amount, now),
            r is Err ==> final(self)@ == old(self)@,
            r is Ok ==> final(self)@ == old(self)@.rate_checked(from@, OPERATION_BURN@, now).burned(from@, amount),
    {
        self.ensure_initialized()?;
        self.ensure_not_paused()?;
        if amount <= 0 {
            return Err(TokenError::InvalidAmount);
        }
        if !rate_allows(&self.rate_limits, from, OPERATION_BURN, now) {
            return Err(TokenError::InvalidAmount);
        }
        let balance = self.read_balance(from);
        if balance < amount {
            return Err(TokenError::InsufficientBalance);
        }
        let new_balance = balance - amount;
        let new_supply = self.read_supply() - amount;
        self.write_balance(from, new_balance);
        self.supply = Some(new_supply);
        check_burn_rate_limit(&mut self.rate_limits, from, amount, now);
        Ok(())
    }

    /// Burns `amount` of `from`'s balance on behalf of `spender`, out of the
    /// allowance `from` gave `spender` as it stands at ledger `sequence`.
    pub fn burn_from(&mut self, spender: &Address, from: &Address, amount: i128, now: u64, sequence: u32) -> (r: Result<(), TokenError>)
        requires
            old(self)@.open_for(amount) ==> old(self)@.rate_limits.check_fits(Some(spender@), OPERATION_BURN_FROM@),
            old(self)@.open_for(amount) && old(self)@.rate_allowed(spender@, OPERATION_BURN_FROM@, now)
                && old(self)@.allowance_value(from@, spender@, sequence) >= amount
                ==> !old(self)@.burn_overflows(from@, amount),
        ensures
            r == old(self)@.burn_from_result(spender@, from@, amount, now, sequence),
            r is Err ==> final(self)@ == old(self)@,
            r is Ok ==> final(self)@ == old(self)@.rate_checked(spender@, OPERATION_BURN_FROM@, now)
                .allowance_spent(from@, spender@, amount, sequence).burned(from@, amount),
    {
        self.ensure_initialized()?;
        self.ensure_not_paused()?;
        if amount <= 0 {
            return Err(TokenError::InvalidAmount);
        }
        if !rate_allows(&self.rate_limits, spender, OPERATION_BURN_FROM, now) {
            return Err(TokenError::InvalidAmount);
        }
        let allowance = self.allowance_amount(from, spender, sequence);
        if allowance < amount {
            return Err(TokenError::InsufficientAllowance);
        }
        let allowance_data = self.read_allowance_data(from, spender);
        let balance = self.read_balance(from);
        if balance < amount {
            return Err(TokenError::InsufficientBalance);
        }
        let new_balance = balance - amount;
        let new_supply = self.read_supply() - amount;
        self.write_allowance(from, spender, allowance - amount, allowance_data.expiration_ledger);
        self.write_balance(from, new_balance);
        self.supply = Some(new_supply);
        check_burn_from_rate_limit(&mut self.rate_limits, spender, amount, now);
        Ok(())
    }
}

impl BcForgeToken {
    /// Puts back the balances, supply and rate-limit windows of `saved`.
    fn restore_counts(
        &mut self,
        balances: LedgerMap<Address, i128>,
        supply: Option<i128>,
        global_counts: LedgerMap<String, crate::rate_limit::RateLimitState>,
        address_counts: LedgerMap<(Address, String), crate::rate_limit::RateLimitState>,
    )
        ensures
            final(self)@ == (TokenView {
                balances: balances@,
                supply,
                rate_limits: RateLimitView {
                    global_counts: global_counts@,
                    address_counts: address_counts@,
                    ..old(self)@.rate_limits
                },
                ..old(self)@
            }),
    {
        self.balances = balances;
        self.supply = supply;
        self.rate_limits.global_counts = global_counts;
        self.rate_limits.address_counts = address_counts;
    }

    /// Mints to each recipient in turn as `minter`, who must hold the
    /// `Minter` role; every amount must be positive, and each mint passes
    /// the mint rate limits and the supply cap. All or nothing.
    pub fn batch_mint(&mut self, minter: &Address, recipients: &Vec<Recipient>, now: u64) -> (r: Result<(), TokenCallError>)
        requires
            old(self)@.batch_mint_reaches(minter@, recipient_items(recipients@))
                ==> batch_mint_fits(old(self)@, minter@, recipient_items(recipients@), now),
        ensures
            match old(self)@.batch_mint_result(minter@, recipient_items(recipients@), now) {
                Ok(w) => r is Ok && final(self)@ == w,
                Err(e) => r == Err::<(), TokenCallError>(e) && final(self)@ == old(self)@,
            },
    {
        let ghost items = recipient_items(recipients@);
        if self.ensure_initialized().is_err() {
            return Err(TokenCallError::Token(TokenError::NotInitialized));
        }
        if self.ensure_not_paused().is_err() {
            return Err(TokenCallError::Token(TokenError::ContractPaused));
        }
        let n = recipients.len();
        let mut i: usize = 0;
        while i < n
            invariant
                n == recipients@.len(),
                items == recipient_items(recipients@),
                i <= n,
                self@ == old(self)@,
                old(self)@.initialized() && !old(self)@.is_paused(),
                forall|j: int| 0 <= j < i ==> #[trigger] items[j].1 > 0,
            decreases n - i,
        {
            if recipients[i].amount <= 0 {
                assert(items[i as int].1 <= 0);
                assert(!all_positive(items));
                return Err(TokenCallError::Token(TokenError::InvalidAmount));
            }
            i = i + 1;
        }
        assert(all_positive(items));
        if require_minter(&self.access, minter).is_err() {
            return Err(TokenCallError::Access(AdminError::UnauthorizedRole));
        }
        let ghost pre = self@;
        let ghost step = mint_stepper(minter@, now);
        let saved_balances = self.balances.duplicate();
        let saved_supply = self.supply;
        let saved_global = self.rate_limits.global_counts.duplicate();
        let saved_address = self.rate_limits.address_counts.duplicate();
        let mut i: usize = 0;
        while i < n
            invariant
                n == recipients@.len(),
                items == recipient_items(recipients@),
                i <= n,
                all_positive(items),
                pre == old(self)@,
                pre.batch_mint_reaches(minter@, items),
                step == mint_stepper(minter@, now),
                batch_mint_fits(pre, minter@, items, now),
                run_steps(pre, items.take(i as int), step) == Ok::<TokenView, TokenError>(self@),
                saved_balances@ == pre.balances,
                saved_supply == pre.supply,
                saved_global@ == pre.rate_limits.global_counts,
                saved_address@ == pre.rate_limits.address_counts,
                self@ == (TokenView {
                    balances: self@.balances,
                    supply: self@.supply,
                    rate_limits: RateLimitView {
                        global_counts: self@.rate_limits.global_counts,
                        address_counts: self@.rate_limits.address_counts,
                        ..pre.rate_limits
                    },
                    ..pre
                }),
            decreases n - i,
        {
            let recipient = &recipients[i];
            let ghost cur = self@;
            proof {
                lemma_run_steps_next(pre, items, step, i as int);
                assert(items[i as int] == (recipient.to@, recipient.amount));
                assert(cur.batch_mint_step_fits(minter@, recipient.to@, recipient.amount, now));
                assert(recipient.amount > 0);
            }
            if !check_mint_rate_limit(&mut self.rate_limits, minter, recipient.amount, now) {
                proof {
                    lemma_run_steps_prefix_err(pre, items, step, i + 1);
                }
                self.restore_counts(saved_balances, saved_supply, saved_global, saved_address);
                return Err(TokenCallError::Token(TokenError::InvalidAmount));
            }
            match self.internal_mint(&recipient.to, recipient.amount) {
                Ok(()) => {},
                Err(e) => {
                    proof {
                        lemma_run_steps_prefix_err(pre, items, step, i + 1);
                    }
                    self.restore_counts(saved_balances, saved_supply, saved_global, saved_address);
                    return Err(TokenCallError::Token(e));
                },
            }
            i = i + 1;
        }
        proof {
            assert(items.take(n as int) =~= items);
        }
        Ok(())
    }
}

impl BcForgeToken {
    /// Transfers from `from` to each recipient in turn. Every amount must be
    /// positive, their sum must fit and be covered by `from`'s balance, and
    /// each transfer passes the sender's transfer rate limits. All or nothing.
    pub fn batch_transfer(&mut self, from: &Address, recipients: &Vec<(Address, i128)>, now: u64) -> (r: Result<(), TokenError>)
        requires
            old(self)@.batch_transfer_reaches(from@, transfer_items(recipients@))
                ==> batch_transfer_fits(old(self)@, from@, transfer_items(recipients@), now),
        ensures
            match old(self)@.batch_transfer_result(from@, transfer_items(recipients@), now) {
                Ok(w) => r is Ok && final(self)@ == w,
                Err(e) => r == Err::<(), TokenError>(e) && final(self)@ == old(self)@,
            },
    {
        let ghost items = transfer_items(recipients@);
        self.ensure_initialized()?;
        self.ensure_not_paused()?;
        let n = recipients.len();
        let mut total: i128 = 0;
        let mut i: usize = 0;
        while i < n
            invariant
                n == recipients@.len(),
                items == transfer_items(recipients@),
                i <= n,
                self@ == old(self)@,
                old(self)@.initialized() && !old(self)@.is_paused(),
                forall|j: int| 0 <= j < i ==> #[trigger] items[j].1 > 0,
                total == amount_total(items.take(i as int)),
            decreases n - i,
        {
            let amount = recipients[i].1;
            proof {
                assert(items.take(i + 1).drop_last() =~= items.take(i as int));
                assert(items[i as int].1 == amount);
            }
            if amount <= 0 {
                assert(!all_positive(items));
                return Err(TokenError::InvalidAmount);
            }
            total = match total.checked_add(amount) {
                Some(t) => t,
                None => {
                    proof {
                        if all_positive(items) {
                            lemma_amount_total_prefix(items, i + 1);
                        }
                    }
                    return Err(TokenError::InvalidAmount);
                },
            };
            i = i + 1;
        }
        proof {
            assert(items.take(n as int) =~= items);
            assert(all_positive(items));
        }
        if self.read_balance(from) < total {
            return Err(TokenError::InsufficientBalance);
        }
        let ghost pre = self@;
        let ghost step = transfer_stepper(from@, now);
        let saved_balances = self.balances.duplicate();
        let saved_supply = self.supply;
        let saved_global = self.rate_limits.global_counts.duplicate();
        let saved_address = self.rate_limits.address_counts.duplicate();
        let mut i: usize = 0;
        while i < n
            invariant
                n == recipients@.len(),
                items == transfer_items(recipients@),
                i <= n,
                pre == old(self)@,
                pre.batch_transfer_reaches(from@, items),
                step == transfer_stepper(from@, now),
                batch_transfer_fits(pre, from@, items, now),
                run_steps(pre, items.take(i as int), step) == Ok::<TokenView, TokenError>(self@),
                saved_balances@ == pre.balances,
                saved_supply == pre.supply,
                saved_global@ == pre.rate_limits.global_counts,
                saved_address@ == pre.rate_limits.address_counts,
                self@ == (TokenView {
                    balances: self@.balances,
                    rate_limits: RateLimitView {
                        global_counts: self@.rate_limits.global_counts,
                        address_counts: self@.rate_limits.address_counts,
                        ..pre.rate_limits
                    },
                    ..pre
                }),
            decreases n - i,
        {
            let item = &recipients[i];
            let ghost cur = self@;
            proof {
                lemma_run_steps_next(pre, items, step, i as int);
                assert(items[i as int] == (item.0@, item.1));
                assert(cur.batch_transfer_step_fits(from@, item.0@, item.1, now));
                assert(item.1 > 0);
            }
            if !check_transfer_rate_limit(&mut self.rate_limits, from, item.1, now) {
                proof {
                    lemma_run_steps_prefix_err(pre, items, step, i + 1);
                }
                self.restore_counts(saved_balances, saved_supply, saved_global, saved_address);
                return Err(TokenError::InvalidAmount);
            }
            match self.move_balance(from, &item.0, item.1) {
                Ok(()) => {},
                Err(e) => {
                    proof {
                        lemma_run_steps_prefix_err(pre, items, step, i + 1);
                    }
                    self.restore_counts(saved_balances, saved_supply, saved_global, saved_address);
                    return Err(e);
                },
            }
            i = i + 1;
        }
        proof {
            assert(items.take(n as int) =~= items);
        }
        Ok(())
    }
}

} // verus!
