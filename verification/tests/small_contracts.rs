use bc_forge::address::Address;
use bc_forge::fee_vault::{FeeVaultContract, VaultError};
use bc_forge::flash_loan_guard::{FlashLoanError, FlashLoanGuardContract};
use bc_forge::freeze::{
    freeze_address, freeze_all, is_address_frozen, is_all_frozen, is_frozen, unfreeze_address,
    unfreeze_all, FreezeState,
};
use bc_forge::reentrancy_guard::{ReentrancyDetected, ReentrancyGuard};
use bc_forge::treasury::{TreasuryCallError, TreasuryContract, TreasuryError};

fn addr(name: &str) -> Address {
    Address::new(format!("G{}", name.to_uppercase()))
}

#[test]
fn test_freeze_and_unfreeze_address() {
    let mut state = FreezeState::new();
    let user = addr("user");
    freeze_address(&mut state, &user);
    assert!(is_address_frozen(&state, &user));
    unfreeze_address(&mut state, &user);
    assert!(!is_address_frozen(&state, &user));
}

#[test]
fn test_freeze_all_blocks_addresses() {
    let mut state = FreezeState::new();
    let user = addr("user");
    freeze_all(&mut state);
    assert!(is_all_frozen(&state));
    assert!(is_frozen(&state, &user));
    unfreeze_all(&mut state);
    assert!(!is_all_frozen(&state));
    assert!(!is_frozen(&state, &user));
}

#[test]
fn freezing_one_address_leaves_others() {
    let mut state = FreezeState::new();
    let a = addr("a");
    let b = addr("b");
    freeze_address(&mut state, &a);
    assert!(is_frozen(&state, &a));
    assert!(!is_frozen(&state, &b));
}

#[test]
fn test_prevents_same_block_withdrawal() {
    let mut guard = FlashLoanGuardContract::new();
    let user = addr("user");
    guard.deposit(&user, 100);
    let result = guard.withdraw(&user, 100);
    assert_eq!(result, Err(FlashLoanError::SameLedgerWithdrawal));
    assert!(FlashLoanError::SameLedgerWithdrawal.message().starts_with("FlashLoanReentrancy"));
}

#[test]
fn test_allows_subsequent_block_withdrawal() {
    let mut guard = FlashLoanGuardContract::new();
    let user = addr("user");
    guard.deposit(&user, 100);
    assert_eq!(guard.withdraw(&user, 101), Ok(()));
}

#[test]
fn withdraw_without_deposit_needs_a_positive_ledger() {
    let mut guard = FlashLoanGuardContract::new();
    let user = addr("user");
    assert_eq!(guard.withdraw(&user, 0), Err(FlashLoanError::SameLedgerWithdrawal));
    assert_eq!(guard.withdraw(&user, 1), Ok(()));
}

fn vault(admin: &Address) -> FeeVaultContract {
    FeeVaultContract {
        admin: Some(admin.duplicate()),
        fee_contract: Some(addr("fees")),
        underlying_token: Some(addr("underlying")),
        total_underlying: Some(1_000),
    }
}

#[test]
fn test_compound_fees_success() {
    let admin = addr("admin");
    let mut v = vault(&admin);
    let fees = v.compound_fees(&admin).unwrap();
    assert!(fees.same(&addr("fees")));
    v.apply_harvest(250).unwrap();
    assert_eq!(v.total_underlying, Some(1_250));
    v.apply_harvest(0).unwrap();
    assert_eq!(v.total_underlying, Some(1_250));
}

#[test]
fn test_compound_fees_unauthorized() {
    let admin = addr("admin");
    let v = vault(&admin);
    let stranger = addr("stranger");
    assert!(matches!(v.compound_fees(&stranger), Err(VaultError::Unauthorized)));
}

#[test]
fn compound_overflow_is_refused() {
    let admin = addr("admin");
    let mut v = vault(&admin);
    v.total_underlying = Some(i128::MAX - 1);
    assert_eq!(v.apply_harvest(2), Err(VaultError::MathOverflow));
    assert_eq!(v.total_underlying, Some(i128::MAX - 1));
}

#[test]
fn test_deposit_success_and_insufficient_balance() {
    let mut treasury = TreasuryContract::new();
    let admin = addr("admin");
    let token = addr("token");
    let treasury_id = addr("treasury");
    treasury.initialize(&admin, &token).unwrap();
    let pull_from = treasury.deposit(300).unwrap();
    assert!(pull_from.same(&token));
    assert_eq!(treasury.credit_deposit(&treasury_id, 300), 300);
    assert_eq!(treasury.balance(&treasury_id), Ok(300));
    assert!(matches!(treasury.deposit(0), Err(TreasuryError::InvalidAmount)));
}

#[test]
fn treasury_initializes_once() {
    let mut treasury = TreasuryContract::new();
    let admin = addr("admin");
    let token = addr("token");
    assert_eq!(treasury.balance(&admin), Err(TreasuryError::NotInitialized));
    assert!(matches!(treasury.deposit(5), Err(TreasuryError::NotInitialized)));
    treasury.initialize(&admin, &token).unwrap();
    assert_eq!(
        treasury.initialize(&admin, &token),
        Err(TreasuryCallError::Treasury(TreasuryError::AlreadyInitialized))
    );
    assert_eq!(TreasuryError::TokenTransferFailed.code(), 6);
}

#[test]
fn reentrancy_guard_refuses_second_entry() {
    let mut guard = ReentrancyGuard::new("mint_guard".to_string());
    assert!(!guard.is_entered());
    assert!(guard.enter());
    assert!(guard.is_entered());
    assert_eq!(guard.require_not_entered(), Err(ReentrancyDetected));
    assert!(!guard.enter());
    guard.exit();
    assert_eq!(guard.require_not_entered(), Ok(()));
    assert!(guard.enter());
}
