use bc_forge::address::Address;
use bc_forge::admin_multisig::{
    approve_proposal, approve_upgrade, cancel_proposal, create_proposal, execute_upgrade,
    execute_upgrade_batch, get_admin_pool, get_proposal_unlock_time, get_threshold,
    is_proposal_ready, register_wasm_hash, require_valid_wasm_hash, set_admin_pool,
    submit_upgrade_proposal, Governance, WasmHash, TIMELOCK_DELAY_SECS,
};
use bc_forge::rbac::{
    get_role_admin, grant_role, has_admin, has_role, migrate_admin, require_minter,
    require_pauser, set_admin, AccessControl, AdminError, Role,
};

fn addr(name: &str) -> Address {
    Address::new(format!("G{}", name.to_uppercase()))
}

fn v2_wasm_hash() -> WasmHash {
    WasmHash::new(vec![2u8; 32])
}

fn setup_pool(members: &[&Address], threshold: u32) -> (AccessControl, Governance) {
    let mut ac = AccessControl::new();
    set_admin(&mut ac, members[0]).unwrap();
    let mut gov = Governance::new();
    let pool: Vec<Address> = members.iter().map(|m| m.duplicate()).collect();
    set_admin_pool(&mut gov, &ac, pool, threshold).unwrap();
    (ac, gov)
}

#[test]
fn test_e2e_deploy_propose_reach_quorum_and_gate_execution() {
    let admin = addr("admin");
    let member_b = addr("memberb");
    let member_c = addr("memberc");
    let (ac, mut gov) = setup_pool(&[&admin, &member_b, &member_c], 2);
    let mut now: u64 = 0;
    assert_eq!(get_threshold(&gov), 2);
    assert_eq!(get_admin_pool(&gov, &ac).len(), 3);

    let new_hash = v2_wasm_hash();
    assert_eq!(require_valid_wasm_hash(&gov, &new_hash), Err(AdminError::InvalidWasmHash));
    register_wasm_hash(&mut gov, &ac, &admin, v2_wasm_hash()).unwrap();
    assert_eq!(require_valid_wasm_hash(&gov, &new_hash), Ok(()));

    let proposal_id = create_proposal(&mut gov, &ac, &admin, "Upgrade to v2".to_string(), now).unwrap();
    assert_eq!(is_proposal_ready(&gov, proposal_id), Ok(false));
    assert!(get_proposal_unlock_time(&gov, proposal_id).is_none());

    assert_eq!(execute_upgrade(&mut gov, &ac, &admin, proposal_id, now), Err(AdminError::QuorumNotMet));

    approve_proposal(&mut gov, &ac, &member_b, proposal_id, now).unwrap();
    assert_eq!(is_proposal_ready(&gov, proposal_id), Ok(true));
    let unlock_at = get_proposal_unlock_time(&gov, proposal_id).unwrap();
    assert_eq!(unlock_at, now + TIMELOCK_DELAY_SECS);

    assert_eq!(execute_upgrade(&mut gov, &ac, &admin, proposal_id, now), Err(AdminError::TimelockActive));

    let outsider = addr("outsider");
    assert_eq!(
        execute_upgrade(&mut gov, &ac, &outsider, proposal_id, now),
        Err(AdminError::UnauthorizedRole)
    );

    approve_proposal(&mut gov, &ac, &member_c, proposal_id, now).unwrap();
    assert_eq!(get_proposal_unlock_time(&gov, proposal_id), Some(unlock_at));

    now = unlock_at;
    assert_eq!(is_proposal_ready(&gov, proposal_id), Ok(true));
    assert_eq!(execute_upgrade(&mut gov, &ac, &admin, proposal_id, now), Ok(()));
}

#[test]
fn test_e2e_execute_upgrade_rejects_nonexistent_proposal() {
    let admin = addr("admin");
    let (ac, mut gov) = setup_pool(&[&admin], 1);
    assert_eq!(execute_upgrade(&mut gov, &ac, &admin, 9999, 0), Err(AdminError::ProposalNotFound));
}

#[test]
fn test_e2e_execute_upgrade_rejects_already_executed_proposal() {
    let admin = addr("admin");
    let (ac, mut gov) = setup_pool(&[&admin], 1);
    let proposal_id = create_proposal(&mut gov, &ac, &admin, "Upgrade to v2".to_string(), 0).unwrap();
    let mut proposal = gov.proposals.take(&proposal_id).unwrap();
    proposal.executed = true;
    gov.proposals.set(proposal_id, proposal);
    assert_eq!(
        execute_upgrade(&mut gov, &ac, &admin, proposal_id, TIMELOCK_DELAY_SECS),
        Err(AdminError::ProposalAlreadyExecuted)
    );
}

#[test]
fn test_e2e_v1_to_v2_admin_upgrade_and_rbac_lifecycle() {
    let mut ac = AccessControl::new();
    let admin = addr("admin");
    let user_a = addr("usera");
    let user_b = addr("userb");
    set_admin(&mut ac, &admin).unwrap();

    assert!(has_admin(&ac));
    assert!(get_role_admin(&ac, Role::Admin).same(&admin));
    assert!(grant_role(&mut ac, &user_a, Role::Minter, &user_b).is_err());

    migrate_admin(&mut ac);

    assert!(has_role(&ac, Role::SuperAdmin, &admin));
    assert!(has_role(&ac, Role::Admin, &admin));

    grant_role(&mut ac, &admin, Role::Minter, &user_a).unwrap();
    grant_role(&mut ac, &admin, Role::Pauser, &user_b).unwrap();
    assert!(has_role(&ac, Role::Minter, &user_a));
    assert!(has_role(&ac, Role::Pauser, &user_b));
    assert!(!has_role(&ac, Role::Minter, &user_b));
    assert!(!has_role(&ac, Role::Pauser, &user_a));

    assert_eq!(require_minter(&ac, &user_a), Ok(()));
    assert_eq!(require_pauser(&ac, &user_b), Ok(()));

    assert!(grant_role(&mut ac, &user_a, Role::Pauser, &user_a).is_err());
}

#[test]
fn test_unauthorized_caller_cannot_execute_upgrade() {
    let admin = addr("admin");
    let unauthorized_executor = addr("executor");
    let (ac, mut gov) = setup_pool(&[&admin], 1);
    let proposal_id = create_proposal(&mut gov, &ac, &admin, "Upgrade".to_string(), 0).unwrap();
    let now = TIMELOCK_DELAY_SECS + 1;
    assert!(execute_upgrade(&mut gov, &ac, &unauthorized_executor, proposal_id, now).is_err());
}

#[test]
fn test_migrate_admin_idempotency() {
    let mut ac = AccessControl::new();
    let admin = addr("admin");
    set_admin(&mut ac, &admin).unwrap();
    migrate_admin(&mut ac);
    migrate_admin(&mut ac);
    migrate_admin(&mut ac);
    assert!(has_role(&ac, Role::SuperAdmin, &admin));
}

#[test]
fn test_unauthorized_user_cannot_grant_roles_post_upgrade() {
    let mut ac = AccessControl::new();
    let admin = addr("admin");
    let user_a = addr("usera");
    let user_b = addr("userb");
    set_admin(&mut ac, &admin).unwrap();
    migrate_admin(&mut ac);
    assert!(grant_role(&mut ac, &user_a, Role::Minter, &user_b).is_err());
    assert!(!has_role(&ac, Role::Minter, &user_b));
}

#[test]
fn test_double_vote_reverts() {
    let admin = addr("admin");
    let member = addr("member");
    let (ac, mut gov) = setup_pool(&[&admin, &member], 2);
    let proposal_id = create_proposal(&mut gov, &ac, &admin, "WASM upgrade proposal".to_string(), 0).unwrap();
    approve_proposal(&mut gov, &ac, &member, proposal_id, 0).unwrap();
    assert_eq!(is_proposal_ready(&gov, proposal_id), Ok(true));
    let res = approve_proposal(&mut gov, &ac, &member, proposal_id, 0);
    assert_eq!(res.map_err(|e| e.code()), Err(AdminError::ProposalAlreadyApproved.code()));
}

#[test]
fn test_execute_upgrade_batch_rejects_length_mismatch() {
    let admin = addr("admin");
    let mut ac = AccessControl::new();
    set_admin(&mut ac, &admin).unwrap();
    let mut gov = Governance::new();
    let id = create_proposal(&mut gov, &ac, &admin, "solo".to_string(), 0).unwrap();
    let ids = vec![id];
    let hashes = vec![v2_wasm_hash(), v2_wasm_hash()];
    assert_eq!(
        execute_upgrade_batch(&mut gov, &ac, &admin, &ids, &hashes, 0),
        Err(AdminError::BatchLengthMismatch)
    );
}

#[test]
fn test_batch_upgrade_rejects_when_split_quorum_not_met() {
    let gov_a = addr("gova");
    let gov_b = addr("govb");
    let (token_ac, mut token_gov) = setup_pool(&[&gov_a, &gov_b], 2);
    let (split_ac, mut split_gov) = setup_pool(&[&gov_a, &gov_b], 2);
    let mut now: u64 = 0;

    let token_proposal = create_proposal(&mut token_gov, &token_ac, &gov_a, "upgrade token".to_string(), now).unwrap();
    let split_proposal = create_proposal(&mut split_gov, &split_ac, &gov_a, "upgrade split".to_string(), now).unwrap();
    approve_proposal(&mut token_gov, &token_ac, &gov_b, token_proposal, now).unwrap();
    assert_eq!(is_proposal_ready(&token_gov, token_proposal), Ok(true));
    assert_eq!(is_proposal_ready(&split_gov, split_proposal), Ok(false));

    now += TIMELOCK_DELAY_SECS + 1;
    execute_upgrade(&mut token_gov, &token_ac, &gov_a, token_proposal, now).unwrap();
    assert_eq!(
        execute_upgrade(&mut split_gov, &split_ac, &gov_a, split_proposal, now),
        Err(AdminError::QuorumNotMet)
    );

    approve_proposal(&mut split_gov, &split_ac, &gov_b, split_proposal, now).unwrap();
    now += TIMELOCK_DELAY_SECS + 1;
    execute_upgrade(&mut split_gov, &split_ac, &gov_a, split_proposal, now).unwrap();
}

#[test]
fn test_batch_upgrade_rejects_non_pool_executor_on_either_contract() {
    let gov_a = addr("gova");
    let gov_b = addr("govb");
    let stranger = addr("stranger");
    let (token_ac, mut token_gov) = setup_pool(&[&gov_a, &gov_b], 2);
    let (split_ac, mut split_gov) = setup_pool(&[&gov_a, &gov_b], 2);

    let token_proposal = create_proposal(&mut token_gov, &token_ac, &gov_a, "upgrade token".to_string(), 0).unwrap();
    let split_proposal = create_proposal(&mut split_gov, &split_ac, &gov_a, "upgrade split".to_string(), 0).unwrap();
    approve_proposal(&mut token_gov, &token_ac, &gov_b, token_proposal, 0).unwrap();
    approve_proposal(&mut split_gov, &split_ac, &gov_b, split_proposal, 0).unwrap();

    assert_eq!(
        execute_upgrade(&mut token_gov, &token_ac, &stranger, token_proposal, 0),
        Err(AdminError::UnauthorizedRole)
    );
    assert_eq!(
        execute_upgrade(&mut split_gov, &split_ac, &stranger, split_proposal, 0),
        Err(AdminError::UnauthorizedRole)
    );

    let now = TIMELOCK_DELAY_SECS + 1;
    execute_upgrade(&mut token_gov, &token_ac, &gov_a, token_proposal, now).unwrap();
    execute_upgrade(&mut split_gov, &split_ac, &gov_a, split_proposal, now).unwrap();
}

#[test]
fn test_batch_token_and_split_upgrades_then_inter_contract_calls_succeed() {
    let gov_a = addr("gova");
    let gov_b = addr("govb");
    let (token_ac, mut token_gov) = setup_pool(&[&gov_a, &gov_b], 2);
    let (split_ac, mut split_gov) = setup_pool(&[&gov_a, &gov_b], 2);

    let token_proposal = create_proposal(&mut token_gov, &token_ac, &gov_a, "upgrade token wasm".to_string(), 0).unwrap();
    let split_proposal = create_proposal(&mut split_gov, &split_ac, &gov_a, "upgrade split wasm".to_string(), 0).unwrap();
    approve_proposal(&mut token_gov, &token_ac, &gov_b, token_proposal, 0).unwrap();
    approve_proposal(&mut split_gov, &split_ac, &gov_b, split_proposal, 0).unwrap();
    assert_eq!(is_proposal_ready(&token_gov, token_proposal), Ok(true));
    assert_eq!(is_proposal_ready(&split_gov, split_proposal), Ok(true));

    let now = TIMELOCK_DELAY_SECS + 1;
    execute_upgrade(&mut token_gov, &token_ac, &gov_a, token_proposal, now).unwrap();
    execute_upgrade(&mut split_gov, &split_ac, &gov_a, split_proposal, now).unwrap();

    assert_eq!(
        execute_upgrade(&mut token_gov, &token_ac, &gov_b, token_proposal, now),
        Err(AdminError::ProposalAlreadyExecuted)
    );
    assert_eq!(
        execute_upgrade(&mut split_gov, &split_ac, &gov_b, split_proposal, now),
        Err(AdminError::ProposalAlreadyExecuted)
    );
}

#[test]
fn upgrade_proposal_votes_and_cancellation() {
    let admin = addr("admin");
    let member = addr("member");
    let third = addr("third");
    let outsider = addr("outsider");
    let (ac, mut gov) = setup_pool(&[&admin, &member, &third], 3);
    let contract = addr("contract");
    register_wasm_hash(&mut gov, &ac, &admin, v2_wasm_hash()).unwrap();
    let id = submit_upgrade_proposal(&mut gov, &ac, &admin, &v2_wasm_hash(), "v2".to_string(), 0, &contract).unwrap();
    assert_eq!(approve_upgrade(&mut gov, &ac, &outsider, id, 1), Err(AdminError::UnauthorizedRole));
    approve_upgrade(&mut gov, &ac, &member, id, 1).unwrap();
    assert_eq!(approve_upgrade(&mut gov, &ac, &member, id, 2), Err(AdminError::DuplicateVote));
    assert_eq!(cancel_proposal(&mut gov, &member, id), Err(AdminError::NotProposer));
    assert_eq!(cancel_proposal(&mut gov, &admin, id), Ok(()));
    assert_eq!(cancel_proposal(&mut gov, &admin, id), Err(AdminError::ProposalNotCancellable));
    assert_eq!(approve_upgrade(&mut gov, &ac, &third, id, 3), Err(AdminError::ProposalNotPending));
    assert_eq!(cancel_proposal(&mut gov, &admin, 77), Err(AdminError::ProposalNotFound));
}

#[test]
fn quorate_upgrade_proposal_stops_taking_votes() {
    let admin = addr("admin");
    let member = addr("member");
    let (ac, mut gov) = setup_pool(&[&admin, &member], 2);
    let contract = addr("contract");
    register_wasm_hash(&mut gov, &ac, &admin, v2_wasm_hash()).unwrap();
    let id = submit_upgrade_proposal(&mut gov, &ac, &admin, &v2_wasm_hash(), "v2".to_string(), 0, &contract).unwrap();
    approve_upgrade(&mut gov, &ac, &member, id, 1).unwrap();
    assert_eq!(approve_upgrade(&mut gov, &ac, &member, id, 2), Err(AdminError::ProposalNotPending));
}

#[test]
fn unregistered_hash_cannot_be_proposed() {
    let admin = addr("admin");
    let (ac, mut gov) = setup_pool(&[&admin], 1);
    let contract = addr("contract");
    assert_eq!(
        submit_upgrade_proposal(&mut gov, &ac, &admin, &v2_wasm_hash(), "v2".to_string(), 0, &contract),
        Err(AdminError::InvalidWasmHash)
    );
    let short = WasmHash::new(vec![2u8; 31]);
    assert_eq!(require_valid_wasm_hash(&gov, &short), Err(AdminError::InvalidWasmHash));
}

#[test]
fn upgrade_proposal_voting_window_closes() {
    let admin = addr("admin");
    let member = addr("member");
    let third = addr("third");
    let (ac, mut gov) = setup_pool(&[&admin, &member, &third], 3);
    let contract = addr("contract");
    register_wasm_hash(&mut gov, &ac, &admin, v2_wasm_hash()).unwrap();
    let id = submit_upgrade_proposal(&mut gov, &ac, &admin, &v2_wasm_hash(), "v2".to_string(), 10, &contract).unwrap();
    approve_upgrade(&mut gov, &ac, &member, id, 10 + TIMELOCK_DELAY_SECS - 1).unwrap();
    assert_eq!(
        approve_upgrade(&mut gov, &ac, &third, id, 10 + TIMELOCK_DELAY_SECS),
        Err(AdminError::ProposalNotPending)
    );
    // The proposer may still withdraw it.
    assert_eq!(cancel_proposal(&mut gov, &admin, id), Ok(()));
}

#[test]
fn upgrade_timelock_starts_at_quorum_and_is_never_moved() {
    let admin = addr("admin");
    let member = addr("member");
    let third = addr("third");
    let (ac, mut gov) = setup_pool(&[&admin, &member, &third], 2);
    let contract = addr("contract");
    register_wasm_hash(&mut gov, &ac, &admin, v2_wasm_hash()).unwrap();
    let id = submit_upgrade_proposal(&mut gov, &ac, &admin, &v2_wasm_hash(), "v2".to_string(), 100, &contract).unwrap();
    assert_eq!(gov.upgrade_proposals.get(&id).unwrap().timelock_expires_at, None);
    approve_upgrade(&mut gov, &ac, &member, id, 250).unwrap();
    let p = gov.upgrade_proposals.get(&id).unwrap();
    assert_eq!(p.status, bc_forge::admin_multisig::ProposalStatus::Approved);
    assert_eq!(p.timelock_expires_at, Some(250 + TIMELOCK_DELAY_SECS));
    // The proposal no longer takes votes, so the unlock time stays.
    assert_eq!(approve_upgrade(&mut gov, &ac, &third, id, 400), Err(AdminError::ProposalNotPending));
    assert_eq!(gov.upgrade_proposals.get(&id).unwrap().timelock_expires_at, Some(250 + TIMELOCK_DELAY_SECS));
}

#[test]
fn single_signer_upgrade_proposal_starts_its_timelock_at_submission() {
    let admin = addr("admin");
    let (ac, mut gov) = setup_pool(&[&admin], 1);
    let contract = addr("contract");
    register_wasm_hash(&mut gov, &ac, &admin, v2_wasm_hash()).unwrap();
    let id = submit_upgrade_proposal(&mut gov, &ac, &admin, &v2_wasm_hash(), "v2".to_string(), u64::MAX - 5, &contract).unwrap();
    let p = gov.upgrade_proposals.get(&id).unwrap();
    assert_eq!(p.status, bc_forge::admin_multisig::ProposalStatus::Approved);
    assert_eq!(p.timelock_expires_at, Some(u64::MAX));
}
