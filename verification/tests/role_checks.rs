use bc_forge::address::{contains_address, duplicate_addresses, Address};
use bc_forge::admin_multisig::{
    approve_proposal, create_proposal, emergency_execute_upgrade, is_proposal_ready,
    require_upgrade_quorum_met, set_admin_pool, Governance, ProposalStatus, UpgradeProposal,
    Vote, WasmHash,
};
use bc_forge::rbac::{
    get_roles_bitmask, grant_role, grant_role_checked, grant_role_unchecked, has_role,
    is_admin_or_pauser, require_non_zero_address, set_admin, validate_role_not_granted,
    AccessControl, AdminError, Role, RoleFlags,
};

fn addr(name: &str) -> Address {
    Address::new(format!("G{}", name.to_uppercase()))
}

fn with_admin() -> (AccessControl, Address) {
    let mut ac = AccessControl::new();
    let admin = addr("admin");
    set_admin(&mut ac, &admin).unwrap();
    (ac, admin)
}

#[test]
fn test_role_flags_bits_and_membership() {
    assert_eq!(RoleFlags::from_role(Role::Admin).bits(), 1);
    assert_eq!(RoleFlags::from_role(Role::Minter).bits(), 2);
    assert_eq!(RoleFlags::from_role(Role::SuperAdmin).bits(), 4);
    assert_eq!(RoleFlags::from_role(Role::Pauser).bits(), 8);
    assert!(RoleFlags::is_set(0b1010, Role::Minter));
    assert!(RoleFlags::is_set(0b1010, Role::Pauser));
    assert!(!RoleFlags::is_set(0b1010, Role::Admin));
    assert!(!RoleFlags::is_set(0b1010, Role::SuperAdmin));
    assert!(!RoleFlags::is_set(0, Role::Minter));
}

#[test]
fn test_roles_bitmask_reports_admin_as_every_role() {
    let (mut ac, admin) = with_admin();
    assert_eq!(get_roles_bitmask(&ac, &admin), 15);

    let holder = addr("holder");
    assert_eq!(get_roles_bitmask(&ac, &holder), 0);
    grant_role(&mut ac, &admin, Role::Minter, &holder).unwrap();
    grant_role(&mut ac, &admin, Role::Pauser, &holder).unwrap();
    assert_eq!(get_roles_bitmask(&ac, &holder), 2 | 8);

    assert_eq!(get_roles_bitmask(&ac, &Address::zero()), 0);
}

#[test]
fn test_validate_role_not_granted_counts_implicit_admin_roles() {
    let (mut ac, admin) = with_admin();
    let holder = addr("holder");
    assert_eq!(validate_role_not_granted(&ac, Role::Minter, &holder), Ok(()));
    grant_role(&mut ac, &admin, Role::Minter, &holder).unwrap();
    assert_eq!(
        validate_role_not_granted(&ac, Role::Minter, &holder),
        Err(AdminError::RoleAlreadyGranted)
    );
    // The admin holds every role implicitly.
    assert_eq!(
        validate_role_not_granted(&ac, Role::Pauser, &admin),
        Err(AdminError::RoleAlreadyGranted)
    );
    assert_eq!(
        validate_role_not_granted(&ac, Role::Pauser, &Address::zero()),
        Err(AdminError::InvalidAddress)
    );
}

#[test]
fn test_grant_role_checked_outcomes() {
    let (mut ac, admin) = with_admin();
    let holder = addr("holder");
    let outsider = addr("outsider");

    assert_eq!(
        grant_role_checked(&mut ac, &outsider, Role::Minter, &holder),
        Err(AdminError::UnauthorizedRole)
    );
    assert!(!has_role(&ac, Role::Minter, &holder));

    assert_eq!(grant_role_checked(&mut ac, &admin, Role::Minter, &holder), Ok(()));
    assert!(has_role(&ac, Role::Minter, &holder));

    assert_eq!(
        grant_role_checked(&mut ac, &admin, Role::Minter, &holder),
        Err(AdminError::RoleAlreadyGranted)
    );
    // Granting the admin a role it holds through `Admin` is refused up front,
    // before the caller is even checked.
    assert_eq!(
        grant_role_checked(&mut ac, &outsider, Role::Pauser, &admin),
        Err(AdminError::RoleAlreadyGranted)
    );
    assert_eq!(
        grant_role_checked(&mut ac, &admin, Role::Pauser, &Address::zero()),
        Err(AdminError::InvalidAddress)
    );
}

#[test]
fn test_grant_role_unchecked_writes_without_caller() {
    let mut ac = AccessControl::new();
    let holder = addr("holder");
    assert_eq!(grant_role_unchecked(&mut ac, Role::Pauser, &holder), Ok(()));
    assert!(has_role(&ac, Role::Pauser, &holder));
    assert_eq!(
        grant_role_unchecked(&mut ac, Role::Pauser, &holder),
        Err(AdminError::RoleAlreadyGranted)
    );
    assert_eq!(
        grant_role_unchecked(&mut ac, Role::Pauser, &Address::zero()),
        Err(AdminError::InvalidAddress)
    );
}

#[test]
fn test_is_admin_or_pauser() {
    let (mut ac, admin) = with_admin();
    let pauser = addr("pauser");
    let minter = addr("minter");
    grant_role(&mut ac, &admin, Role::Pauser, &pauser).unwrap();
    grant_role(&mut ac, &admin, Role::Minter, &minter).unwrap();
    assert!(is_admin_or_pauser(&ac, &admin));
    assert!(is_admin_or_pauser(&ac, &pauser));
    assert!(!is_admin_or_pauser(&ac, &minter));
    assert!(!is_admin_or_pauser(&ac, &addr("nobody")));
}

#[test]
fn test_require_non_zero_address() {
    assert_eq!(require_non_zero_address(&addr("someone")), Ok(()));
    assert_eq!(require_non_zero_address(&Address::zero()), Err(AdminError::InvalidAddress));
}

#[test]
fn test_address_list_helpers() {
    let a = addr("a");
    let b = addr("b");
    let list = vec![a.duplicate(), b.duplicate()];
    assert!(contains_address(&list, &b));
    assert!(!contains_address(&list, &addr("c")));
    let copy = duplicate_addresses(&list);
    assert_eq!(copy.len(), 2);
    assert!(copy[0].same(&a));
    assert!(copy[1].same(&b));
}

#[test]
fn test_wasm_hash_all_zero() {
    assert!(WasmHash::new(vec![0u8; 32]).is_all_zero());
    let mut bytes = vec![0u8; 32];
    bytes[31] = 1;
    assert!(!WasmHash::new(bytes).is_all_zero());
    assert!(!WasmHash::new(vec![0u8; 31]).is_all_zero());
}

#[test]
fn test_emergency_execute_needs_every_pool_member() {
    let admin = addr("admin");
    let b = addr("b");
    let c = addr("c");
    let mut ac = AccessControl::new();
    set_admin(&mut ac, &admin).unwrap();
    let mut gov = Governance::new();
    set_admin_pool(&mut gov, &ac, vec![admin.duplicate(), b.duplicate(), c.duplicate()], 2).unwrap();

    let id = create_proposal(&mut gov, &ac, &admin, "urgent".to_string(), 0).unwrap();
    approve_proposal(&mut gov, &ac, &b, id, 0).unwrap();
    assert_eq!(is_proposal_ready(&gov, id), Ok(true));
    assert_eq!(
        emergency_execute_upgrade(&mut gov, &ac, &admin, id),
        Err(AdminError::QuorumNotMet)
    );
    assert_eq!(
        emergency_execute_upgrade(&mut gov, &ac, &addr("outsider"), id),
        Err(AdminError::UnauthorizedRole)
    );
    assert_eq!(
        emergency_execute_upgrade(&mut gov, &ac, &admin, 99),
        Err(AdminError::ProposalNotFound)
    );

    approve_proposal(&mut gov, &ac, &c, id, 0).unwrap();
    // No timelock wait: unanimous approval executes at once.
    assert_eq!(emergency_execute_upgrade(&mut gov, &ac, &c, id), Ok(()));
    assert_eq!(
        emergency_execute_upgrade(&mut gov, &ac, &c, id),
        Err(AdminError::ProposalAlreadyExecuted)
    );
}

#[test]
fn test_upgrade_quorum_uses_weighted_tally() {
    let mut proposal = UpgradeProposal {
        proposer: addr("p"),
        targets: vec![addr("target")],
        votes: vec![Vote { voter: addr("p"), weight: 2 }],
        quorum: 5,
        status: ProposalStatus::Pending,
        expires_at: 100,
        timelock_expires_at: None,
    };
    assert_eq!(require_upgrade_quorum_met(&proposal), Err(AdminError::QuorumNotMet));
    proposal.votes.push(Vote { voter: addr("q"), weight: 3 });
    assert_eq!(require_upgrade_quorum_met(&proposal), Ok(()));
    proposal.votes.push(Vote { voter: addr("r"), weight: u32::MAX });
    assert_eq!(require_upgrade_quorum_met(&proposal), Ok(()));
}

#[test]
fn test_emergency_execute_ignores_approvals_of_former_members() {
    let admin = addr("admin");
    let b = addr("b");
    let c = addr("c");
    let d = addr("d");
    let mut ac = AccessControl::new();
    set_admin(&mut ac, &admin).unwrap();
    let mut gov = Governance::new();
    set_admin_pool(&mut gov, &ac, vec![admin.duplicate(), b.duplicate(), c.duplicate()], 2).unwrap();
    let id = create_proposal(&mut gov, &ac, &admin, "urgent".to_string(), 0).unwrap();
    approve_proposal(&mut gov, &ac, &b, id, 0).unwrap();
    approve_proposal(&mut gov, &ac, &c, id, 0).unwrap();

    // `c` leaves the pool and `d` joins: three approvals, three members,
    // but `d` has not approved.
    set_admin_pool(&mut gov, &ac, vec![admin.duplicate(), b.duplicate(), d.duplicate()], 2).unwrap();
    assert_eq!(
        emergency_execute_upgrade(&mut gov, &ac, &admin, id),
        Err(AdminError::QuorumNotMet)
    );
    approve_proposal(&mut gov, &ac, &d, id, 0).unwrap();
    assert_eq!(emergency_execute_upgrade(&mut gov, &ac, &admin, id), Ok(()));
}

#[test]
fn test_not_proposal_creator_has_its_own_code() {
    assert_eq!(AdminError::NotProposalCreator.code(), 23);
}
