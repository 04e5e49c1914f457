use bc_forge::address::Address;
use bc_forge::admin_multisig::{
    approve_proposal, create_proposal, get_admin_pool, get_proposal_unlock_time, get_threshold,
    is_proposal_ready, mark_executed, set_admin_pool, Governance,
};
use bc_forge::rbac::{
    get_role_admin, grant_role, has_admin, has_role, init_storage, migrate_admin,
    require_admin, require_fee_admin, require_minter, require_pauser, require_role,
    require_role_guard, require_super_admin, revoke_role, revoke_role_unchecked, set_admin,
    AccessControl, AdminError, Role,
};

fn addr(name: &str) -> Address {
    Address::new(format!("G{}", name.to_uppercase()))
}

fn zero_address() -> Address {
    Address::zero()
}

fn with_admin() -> (AccessControl, Address) {
    let mut ac = AccessControl::new();
    let admin = addr("admin");
    set_admin(&mut ac, &admin).unwrap();
    (ac, admin)
}

const ALL_ROLES: [Role; 4] = [Role::Admin, Role::Minter, Role::SuperAdmin, Role::Pauser];

#[test]
fn test_super_admin_role_storage_does_not_overlap_with_other_roles() {
    let (mut ac, admin) = with_admin();
    let super_admin_holder = addr("superholder");
    let minter_holder = addr("minterholder");
    let pauser_holder = addr("pauserholder");

    for role in ALL_ROLES {
        assert!(get_role_admin(&ac, role).same(&admin));
    }

    grant_role(&mut ac, &admin, Role::SuperAdmin, &super_admin_holder).unwrap();
    grant_role(&mut ac, &admin, Role::Minter, &minter_holder).unwrap();
    grant_role(&mut ac, &admin, Role::Pauser, &pauser_holder).unwrap();

    assert!(has_role(&ac, Role::SuperAdmin, &super_admin_holder));
    assert!(!has_role(&ac, Role::Minter, &super_admin_holder));
    assert!(!has_role(&ac, Role::Pauser, &super_admin_holder));

    assert!(!has_role(&ac, Role::SuperAdmin, &minter_holder));
    assert!(has_role(&ac, Role::Minter, &minter_holder));
    assert!(!has_role(&ac, Role::Pauser, &minter_holder));

    assert!(!has_role(&ac, Role::SuperAdmin, &pauser_holder));
    assert!(!has_role(&ac, Role::Minter, &pauser_holder));
    assert!(has_role(&ac, Role::Pauser, &pauser_holder));
}

#[test]
fn test_super_admin_can_grant_role() {
    let (mut ac, admin) = with_admin();
    let super_admin = addr("super");
    let role_holder = addr("holder");
    grant_role(&mut ac, &admin, Role::SuperAdmin, &super_admin).unwrap();
    grant_role(&mut ac, &super_admin, Role::Minter, &role_holder).unwrap();
    assert!(has_role(&ac, Role::Minter, &role_holder));
}

#[test]
fn test_super_admin_can_grant_minter() {
    let (mut ac, admin) = with_admin();
    let super_admin = addr("super");
    let minter = addr("minter");
    grant_role(&mut ac, &admin, Role::SuperAdmin, &super_admin).unwrap();
    grant_role(&mut ac, &super_admin, Role::Minter, &minter).unwrap();
    assert!(has_role(&ac, Role::Minter, &minter));
}

#[test]
fn test_non_super_admin_cannot_grant_minter() {
    let (mut ac, _admin) = with_admin();
    let caller = addr("caller");
    let target = addr("target");
    let result = grant_role(&mut ac, &caller, Role::Minter, &target);
    assert_eq!(result.map_err(|e| e.code()), Err(3));
    assert!(!has_role(&ac, Role::Minter, &target));
}

#[test]
fn test_super_admin_can_grant_pauser() {
    let (mut ac, admin) = with_admin();
    let super_admin = addr("super");
    let pauser = addr("pauser");
    grant_role(&mut ac, &admin, Role::SuperAdmin, &super_admin).unwrap();
    grant_role(&mut ac, &super_admin, Role::Pauser, &pauser).unwrap();
    assert!(has_role(&ac, Role::Pauser, &pauser));
}

#[test]
fn test_admin_can_grant_pauser() {
    let (mut ac, admin) = with_admin();
    let pauser = addr("pauser");
    grant_role(&mut ac, &admin, Role::Pauser, &pauser).unwrap();
    assert!(has_role(&ac, Role::Pauser, &pauser));
}

#[test]
fn test_non_privileged_caller_cannot_grant_pauser() {
    let (mut ac, _admin) = with_admin();
    let caller = addr("caller");
    let target = addr("target");
    let result = grant_role(&mut ac, &caller, Role::Pauser, &target);
    assert_eq!(result.map_err(|e| e.code()), Err(3));
    assert!(!has_role(&ac, Role::Pauser, &target));
}

#[test]
fn test_super_admin_can_grant_super_admin() {
    let (mut ac, admin) = with_admin();
    let super_admin_a = addr("supera");
    let super_admin_b = addr("superb");
    let role_holder = addr("holder");

    grant_role(&mut ac, &admin, Role::SuperAdmin, &super_admin_a).unwrap();
    assert!(has_role(&ac, Role::SuperAdmin, &super_admin_a));

    assert!(!has_role(&ac, Role::SuperAdmin, &super_admin_b));
    grant_role(&mut ac, &super_admin_a, Role::SuperAdmin, &super_admin_b).unwrap();
    assert!(has_role(&ac, Role::SuperAdmin, &super_admin_b));

    grant_role(&mut ac, &super_admin_b, Role::Minter, &role_holder).unwrap();
    assert!(has_role(&ac, Role::Minter, &role_holder));
}

#[test]
fn test_admin_can_grant_role() {
    let (mut ac, admin) = with_admin();
    let role_holder = addr("holder");
    grant_role(&mut ac, &admin, Role::Minter, &role_holder).unwrap();
    assert!(has_role(&ac, Role::Minter, &role_holder));
}

#[test]
fn test_non_privileged_caller_cannot_grant_role() {
    let (mut ac, _admin) = with_admin();
    let caller = addr("caller");
    let role_holder = addr("holder");
    let result = grant_role(&mut ac, &caller, Role::Minter, &role_holder);
    assert_eq!(result.map_err(|e| e.code()), Err(3));
    assert!(!has_role(&ac, Role::Minter, &role_holder));
}

#[test]
fn test_revoked_super_admin_cannot_grant_role() {
    let (mut ac, admin) = with_admin();
    let super_admin = addr("super");
    let role_holder = addr("holder");
    grant_role(&mut ac, &admin, Role::SuperAdmin, &super_admin).unwrap();
    revoke_role(&mut ac, &admin, Role::SuperAdmin, &super_admin).unwrap();
    let result = grant_role(&mut ac, &super_admin, Role::Minter, &role_holder);
    assert_eq!(result.map_err(|e| e.code()), Err(3));
    assert!(!has_role(&ac, Role::Minter, &role_holder));
}

#[test]
fn test_zero_address_caller_cannot_grant_role() {
    let (mut ac, _admin) = with_admin();
    let role_holder = addr("holder");
    let result = grant_role(&mut ac, &zero_address(), Role::Minter, &role_holder);
    assert_eq!(result.map_err(|e| e.code()), Err(3));
    assert!(!has_role(&ac, Role::Minter, &role_holder));
}

#[test]
fn test_grant_role_rejects_unconfigured_caller() {
    let mut ac = AccessControl::new();
    let caller = addr("caller");
    let role_holder = addr("holder");
    let result = grant_role(&mut ac, &caller, Role::Minter, &role_holder);
    assert_eq!(result.map_err(|e| e.code()), Err(3));
    assert!(!has_role(&ac, Role::Minter, &role_holder));
}

#[test]
fn test_get_role_admin_returns_admin() {
    let (ac, admin) = with_admin();
    assert!(get_role_admin(&ac, Role::Admin).same(&admin));
}

#[test]
fn test_set_admin_rejects_zero_address() {
    let mut ac = AccessControl::new();
    let result = set_admin(&mut ac, &zero_address());
    assert_eq!(result.map_err(|e| e.code()), Err(4));
}

#[test]
fn test_grant_role_rejects_zero_address() {
    let (mut ac, admin) = with_admin();
    let result = grant_role(&mut ac, &admin, Role::Minter, &zero_address());
    assert_eq!(result.map_err(|e| e.code()), Err(4));
}

#[test]
fn test_revoke_role_rejects_zero_address() {
    let (mut ac, admin) = with_admin();
    let result = revoke_role(&mut ac, &admin, Role::Minter, &zero_address());
    assert_eq!(result, Err(AdminError::InvalidAddress));
}

#[test]
fn test_zero_address_never_holds_a_role() {
    let (ac, _admin) = with_admin();
    for role in ALL_ROLES {
        assert!(!has_role(&ac, role, &zero_address()));
    }
}

#[test]
fn test_pauser_role_assignment() {
    let (mut ac, admin) = with_admin();
    let pauser = addr("pauser");
    assert!(!has_role(&ac, Role::Pauser, &pauser));
    grant_role(&mut ac, &admin, Role::Pauser, &pauser).unwrap();
    assert!(has_role(&ac, Role::Pauser, &pauser));
}

#[test]
fn test_non_super_admin_cannot_grant_pauser() {
    let (mut ac, admin) = with_admin();
    let caller = addr("caller");
    let target = addr("target");
    let result = grant_role(&mut ac, &caller, Role::Pauser, &target);
    assert_eq!(result.map_err(|e| e.code()), Err(3));
    assert!(!has_role(&ac, Role::Pauser, &target));

    let minter = addr("minter");
    let another_target = addr("another");
    grant_role(&mut ac, &admin, Role::Minter, &minter).unwrap();
    assert!(has_role(&ac, Role::Minter, &minter));
    let result = grant_role(&mut ac, &minter, Role::Pauser, &another_target);
    assert_eq!(result.map_err(|e| e.code()), Err(3));
    assert!(!has_role(&ac, Role::Pauser, &another_target));

    let pauser_holder = addr("pauserholder");
    let yet_another = addr("yetanother");
    grant_role(&mut ac, &admin, Role::Pauser, &pauser_holder).unwrap();
    assert!(has_role(&ac, Role::Pauser, &pauser_holder));
    let result = grant_role(&mut ac, &pauser_holder, Role::Pauser, &yet_another);
    assert_eq!(result.map_err(|e| e.code()), Err(3));
    assert!(!has_role(&ac, Role::Pauser, &yet_another));
}

#[test]
fn test_super_admin_can_revoke_pauser() {
    let (mut ac, admin) = with_admin();
    let pauser = addr("pauser");
    grant_role(&mut ac, &admin, Role::Pauser, &pauser).unwrap();
    assert!(has_role(&ac, Role::Pauser, &pauser));
    revoke_role(&mut ac, &admin, Role::Pauser, &pauser).unwrap();
    assert!(!has_role(&ac, Role::Pauser, &pauser));
}

#[test]
fn test_super_admin_revoke_pauser_when_not_held_errors() {
    let (mut ac, admin) = with_admin();
    let pauser = addr("pauser");
    assert_eq!(revoke_role(&mut ac, &admin, Role::Pauser, &pauser), Err(AdminError::RoleNotHeld));
    grant_role(&mut ac, &admin, Role::Pauser, &pauser).unwrap();
    revoke_role(&mut ac, &admin, Role::Pauser, &pauser).unwrap();
    assert_eq!(revoke_role(&mut ac, &admin, Role::Pauser, &pauser), Err(AdminError::RoleNotHeld));
}

#[test]
fn test_super_admin_revoke_pauser_preserves_other_roles() {
    let (mut ac, admin) = with_admin();
    let holder = addr("holder");
    grant_role(&mut ac, &admin, Role::Pauser, &holder).unwrap();
    grant_role(&mut ac, &admin, Role::Minter, &holder).unwrap();
    revoke_role(&mut ac, &admin, Role::Pauser, &holder).unwrap();
    assert!(!has_role(&ac, Role::Pauser, &holder));
    assert!(has_role(&ac, Role::Minter, &holder));
}

#[test]
fn test_super_admin_can_revoke_minter() {
    let (mut ac, admin) = with_admin();
    let minter = addr("minter");
    grant_role(&mut ac, &admin, Role::Minter, &minter).unwrap();
    assert!(has_role(&ac, Role::Minter, &minter));
    revoke_role(&mut ac, &admin, Role::Minter, &minter).unwrap();
    assert!(!has_role(&ac, Role::Minter, &minter));
}

#[test]
fn test_super_admin_revoke_minter_when_not_held_errors() {
    let (mut ac, admin) = with_admin();
    let minter = addr("minter");
    assert_eq!(revoke_role(&mut ac, &admin, Role::Minter, &minter), Err(AdminError::RoleNotHeld));
    grant_role(&mut ac, &admin, Role::Minter, &minter).unwrap();
    revoke_role(&mut ac, &admin, Role::Minter, &minter).unwrap();
    assert_eq!(revoke_role(&mut ac, &admin, Role::Minter, &minter), Err(AdminError::RoleNotHeld));
}

#[test]
fn test_super_admin_revoke_minter_preserves_other_roles() {
    let (mut ac, admin) = with_admin();
    let holder = addr("holder");
    grant_role(&mut ac, &admin, Role::Minter, &holder).unwrap();
    grant_role(&mut ac, &admin, Role::Pauser, &holder).unwrap();
    revoke_role(&mut ac, &admin, Role::Minter, &holder).unwrap();
    assert!(!has_role(&ac, Role::Minter, &holder));
    assert!(has_role(&ac, Role::Pauser, &holder));
}

#[test]
fn test_super_admin_can_revoke_any_role() {
    let (mut ac, admin) = with_admin();
    let super_admin = addr("super");
    let user_a = addr("usera");
    grant_role(&mut ac, &admin, Role::SuperAdmin, &super_admin).unwrap();
    assert!(has_role(&ac, Role::SuperAdmin, &super_admin));
    for role in ALL_ROLES {
        grant_role(&mut ac, &admin, role, &user_a).unwrap();
        assert!(has_role(&ac, role, &user_a));
        revoke_role(&mut ac, &super_admin, role, &user_a).unwrap();
        assert!(!has_role(&ac, role, &user_a));
    }
}

#[test]
fn test_super_admin_revoke_any_role_when_not_held_errors() {
    let (mut ac, admin) = with_admin();
    let super_admin = addr("super");
    let user_a = addr("usera");
    grant_role(&mut ac, &admin, Role::SuperAdmin, &super_admin).unwrap();
    for role in ALL_ROLES {
        assert_eq!(revoke_role(&mut ac, &super_admin, role, &user_a), Err(AdminError::RoleNotHeld));
    }
    for role in ALL_ROLES {
        grant_role(&mut ac, &admin, role, &user_a).unwrap();
        revoke_role(&mut ac, &super_admin, role, &user_a).unwrap();
        assert_eq!(revoke_role(&mut ac, &super_admin, role, &user_a), Err(AdminError::RoleNotHeld));
    }
}

#[test]
fn test_non_super_admin_cannot_revoke_any_role() {
    let (mut ac, admin) = with_admin();
    let minter = addr("minter");
    let user_a = addr("usera");
    grant_role(&mut ac, &admin, Role::Minter, &minter).unwrap();
    for role in ALL_ROLES {
        grant_role(&mut ac, &admin, role, &user_a).unwrap();
        assert!(has_role(&ac, role, &user_a));
        assert_eq!(revoke_role(&mut ac, &minter, role, &user_a), Err(AdminError::UnauthorizedRole));
        assert!(has_role(&ac, role, &user_a));
        revoke_role(&mut ac, &admin, role, &user_a).unwrap();
    }
}

#[test]
fn test_revoked_super_admin_cannot_revoke_any_role() {
    let (mut ac, admin) = with_admin();
    let super_admin = addr("super");
    let user_a = addr("usera");
    grant_role(&mut ac, &admin, Role::SuperAdmin, &super_admin).unwrap();
    grant_role(&mut ac, &admin, Role::Minter, &user_a).unwrap();
    grant_role(&mut ac, &admin, Role::Pauser, &user_a).unwrap();
    revoke_role(&mut ac, &admin, Role::SuperAdmin, &super_admin).unwrap();
    assert!(!has_role(&ac, Role::SuperAdmin, &super_admin));
    for role in [Role::Minter, Role::Pauser] {
        assert_eq!(
            revoke_role(&mut ac, &super_admin, role, &user_a),
            Err(AdminError::UnauthorizedRole)
        );
        assert!(has_role(&ac, role, &user_a));
    }
}

#[test]
fn test_internal_revoke_role_removes_assignment() {
    let (mut ac, admin) = with_admin();
    let role_holder = addr("holder");
    grant_role(&mut ac, &admin, Role::Minter, &role_holder).unwrap();
    assert_eq!(revoke_role_unchecked(&mut ac, Role::Minter, &role_holder), Ok(()));
    assert!(!has_role(&ac, Role::Minter, &role_holder));
}

#[test]
fn test_internal_revoke_role_rejects_unassigned_role_without_modifying_state() {
    let (mut ac, admin) = with_admin();
    let role_holder = addr("holder");
    assert_eq!(revoke_role_unchecked(&mut ac, Role::Minter, &role_holder), Err(AdminError::RoleNotHeld));
    assert!(has_role(&ac, Role::Admin, &admin));
}

#[test]
fn test_require_role_succeeds_when_role_held() {
    let (mut ac, admin) = with_admin();
    let role_holder = addr("holder");
    grant_role(&mut ac, &admin, Role::Minter, &role_holder).unwrap();
    assert_eq!(require_role(&ac, Role::Minter, &role_holder), Ok(()));
}

#[test]
fn test_require_role_accepts_every_valid_role() {
    let (ac, admin) = with_admin();
    for role in ALL_ROLES {
        assert_eq!(require_role(&ac, role, &admin), Ok(()));
    }
}

#[test]
fn test_require_role_fails_when_role_not_held() {
    let (ac, _admin) = with_admin();
    let non_holder = addr("nonholder");
    assert_eq!(require_role(&ac, Role::Minter, &non_holder).map_err(|e| e.code()), Err(2));
}

#[test]
fn test_require_role_fails_when_role_revoked() {
    let (mut ac, admin) = with_admin();
    let role_holder = addr("holder");
    grant_role(&mut ac, &admin, Role::Minter, &role_holder).unwrap();
    revoke_role(&mut ac, &admin, Role::Minter, &role_holder).unwrap();
    assert_eq!(require_role(&ac, Role::Minter, &role_holder).map_err(|e| e.code()), Err(2));
}

#[test]
fn test_require_role_fails_for_zero_address() {
    let (ac, _admin) = with_admin();
    assert_eq!(require_role(&ac, Role::Minter, &zero_address()).map_err(|e| e.code()), Err(2));
}

#[test]
fn test_has_role_admin_implicitly_holds_all_roles() {
    let (ac, admin) = with_admin();
    assert!(has_role(&ac, Role::Admin, &admin));
    assert!(has_role(&ac, Role::Minter, &admin));
    assert!(has_role(&ac, Role::SuperAdmin, &admin));
}

#[test]
fn test_require_role_guard_succeeds_when_role_held() {
    let (mut ac, admin) = with_admin();
    let role_holder = addr("holder");
    grant_role(&mut ac, &admin, Role::Minter, &role_holder).unwrap();
    assert_eq!(require_role_guard(&ac, Role::Minter, &role_holder), Ok(()));
}

#[test]
fn test_require_role_guard_fails_when_role_not_held() {
    let (ac, _admin) = with_admin();
    let non_holder = addr("nonholder");
    assert_eq!(require_role_guard(&ac, Role::Minter, &non_holder).map_err(|e| e.code()), Err(3));
}

#[test]
fn test_require_role_guard_fails_when_role_revoked() {
    let (mut ac, admin) = with_admin();
    let role_holder = addr("holder");
    grant_role(&mut ac, &admin, Role::Minter, &role_holder).unwrap();
    revoke_role(&mut ac, &admin, Role::Minter, &role_holder).unwrap();
    assert_eq!(require_role_guard(&ac, Role::Minter, &role_holder).map_err(|e| e.code()), Err(3));
}

#[test]
fn test_require_role_guard_fails_for_zero_address() {
    let (ac, _admin) = with_admin();
    assert_eq!(require_role_guard(&ac, Role::Minter, &zero_address()).map_err(|e| e.code()), Err(3));
}

#[test]
fn test_require_minter_succeeds_when_minter_role_held() {
    let (mut ac, admin) = with_admin();
    let minter = addr("minter");
    grant_role(&mut ac, &admin, Role::Minter, &minter).unwrap();
    assert_eq!(require_minter(&ac, &minter), Ok(()));
}

#[test]
fn test_has_role_non_admin_with_granted_role() {
    let (mut ac, admin) = with_admin();
    let minter = addr("minter");
    grant_role(&mut ac, &admin, Role::Minter, &minter).unwrap();
    assert!(has_role(&ac, Role::Minter, &minter));
    assert!(!has_role(&ac, Role::Admin, &minter));
    assert!(!has_role(&ac, Role::SuperAdmin, &minter));
}

#[test]
fn test_require_minter_succeeds_for_admin() {
    let (ac, admin) = with_admin();
    assert_eq!(require_minter(&ac, &admin), Ok(()));
}

#[test]
fn test_require_minter_fails_when_not_minter() {
    let (ac, _admin) = with_admin();
    let non_minter = addr("nonminter");
    assert_eq!(require_minter(&ac, &non_minter).map_err(|e| e.code()), Err(3));
}

#[test]
fn test_require_super_admin_succeeds_when_super_admin_role_held() {
    let (mut ac, admin) = with_admin();
    let super_admin = addr("super");
    grant_role(&mut ac, &admin, Role::SuperAdmin, &super_admin).unwrap();
    assert_eq!(require_super_admin(&ac, &super_admin), Ok(()));
}

#[test]
fn test_require_super_admin_succeeds_for_admin() {
    let (ac, admin) = with_admin();
    assert_eq!(require_super_admin(&ac, &admin), Ok(()));
}

#[test]
fn test_require_super_admin_fails_with_unauthorized_role() {
    let (ac, _admin) = with_admin();
    let unauthorized = addr("unauthorized");
    assert_eq!(require_super_admin(&ac, &unauthorized).map_err(|e| e.code()), Err(3));
}

#[test]
fn test_require_pauser_succeeds_when_pauser_role_held() {
    let (mut ac, admin) = with_admin();
    let pauser = addr("pauser");
    grant_role(&mut ac, &admin, Role::Pauser, &pauser).unwrap();
    assert_eq!(require_pauser(&ac, &pauser), Ok(()));
}

#[test]
fn test_require_pauser_succeeds_for_admin() {
    let (ac, admin) = with_admin();
    assert_eq!(require_pauser(&ac, &admin), Ok(()));
}

#[test]
fn test_require_pauser_fails_when_not_pauser() {
    let (ac, _admin) = with_admin();
    let unauthorized = addr("unauthorized");
    assert_eq!(require_pauser(&ac, &unauthorized).map_err(|e| e.code()), Err(3));
}

#[test]
fn test_revoked_pauser_cannot_pause() {
    let (mut ac, admin) = with_admin();
    let pauser = addr("pauser");
    grant_role(&mut ac, &admin, Role::Pauser, &pauser).unwrap();
    assert_eq!(require_pauser(&ac, &pauser), Ok(()));
    revoke_role(&mut ac, &admin, Role::Pauser, &pauser).unwrap();
    assert_eq!(require_pauser(&ac, &pauser).map_err(|e| e.code()), Err(3));
    assert!(!has_role(&ac, Role::Pauser, &pauser));
}

#[test]
fn test_has_role_returns_false_when_no_role_held() {
    let (ac, _admin) = with_admin();
    let stranger = addr("stranger");
    assert!(!has_role(&ac, Role::Admin, &stranger));
    assert!(!has_role(&ac, Role::Minter, &stranger));
    assert!(!has_role(&ac, Role::SuperAdmin, &stranger));
}

#[test]
fn test_non_super_admin_cannot_revoke_role() {
    let (mut ac, admin) = with_admin();
    let caller = addr("caller");
    let role_holder = addr("holder");
    grant_role(&mut ac, &admin, Role::Minter, &role_holder).unwrap();
    assert!(has_role(&ac, Role::Minter, &role_holder));
    assert_eq!(revoke_role(&mut ac, &caller, Role::Minter, &role_holder), Err(AdminError::UnauthorizedRole));
    assert!(has_role(&ac, Role::Minter, &role_holder));
}

#[test]
fn test_has_role_after_revoke() {
    let (mut ac, admin) = with_admin();
    let minter = addr("minter");
    grant_role(&mut ac, &admin, Role::Minter, &minter).unwrap();
    assert!(has_role(&ac, Role::Minter, &minter));
    revoke_role(&mut ac, &admin, Role::Minter, &minter).unwrap();
    assert!(!has_role(&ac, Role::Minter, &minter));
}

#[test]
fn test_has_role_role_isolation() {
    let (mut ac, admin) = with_admin();
    let minter = addr("minter");
    grant_role(&mut ac, &admin, Role::Minter, &minter).unwrap();
    assert!(has_role(&ac, Role::Minter, &minter));
    assert!(!has_role(&ac, Role::Pauser, &minter));
    assert!(!has_role(&ac, Role::SuperAdmin, &minter));
    assert!(!has_role(&ac, Role::Admin, &minter));
}

#[test]
fn test_has_role_zero_address_returns_false() {
    let (ac, _admin) = with_admin();
    for role in ALL_ROLES {
        assert!(!has_role(&ac, role, &zero_address()));
    }
}

#[test]
fn test_init_storage_sets_admin_and_role() {
    let mut ac = AccessControl::new();
    let admin = addr("admin");
    init_storage(&mut ac, &admin).unwrap();
    assert!(has_role(&ac, Role::Admin, &admin));
}

#[test]
fn test_init_storage_rejects_double_init() {
    let mut ac = AccessControl::new();
    let admin = addr("admin");
    init_storage(&mut ac, &admin).unwrap();
    assert_eq!(init_storage(&mut ac, &admin), Err(AdminError::AlreadyInitialized));
}

#[test]
fn test_init_storage_rejects_zero_address() {
    let mut ac = AccessControl::new();
    assert_eq!(init_storage(&mut ac, &zero_address()), Err(AdminError::InvalidAddress));
}

#[test]
fn test_revoke_role_returns_role_not_held_when_never_granted() {
    let (mut ac, admin) = with_admin();
    let user = addr("user");
    assert_eq!(revoke_role(&mut ac, &admin, Role::Pauser, &user), Err(AdminError::RoleNotHeld));
}

#[test]
fn test_require_admin_succeeds_for_admin() {
    let (ac, admin) = with_admin();
    assert_eq!(require_admin(&ac, &admin), Ok(()));
}

#[test]
fn test_require_admin_succeeds_when_role_held() {
    let (mut ac, admin) = with_admin();
    let holder = addr("holder");
    grant_role(&mut ac, &admin, Role::Admin, &holder).unwrap();
    assert_eq!(require_admin(&ac, &holder), Ok(()));
}

#[test]
fn test_require_admin_fails_when_role_not_held() {
    let (ac, _admin) = with_admin();
    let unauthorized = addr("unauthorized");
    assert_eq!(require_admin(&ac, &unauthorized).map_err(|e| e.code()), Err(3));
}

#[test]
fn test_require_admin_fails_for_zero_address() {
    let ac = AccessControl::new();
    assert_eq!(require_admin(&ac, &zero_address()).map_err(|e| e.code()), Err(3));
}

#[test]
fn test_migrate_admin_populates_super_admin_storage() {
    let (mut ac, admin) = with_admin();
    migrate_admin(&mut ac);
    assert!(ac.super_admins.contains_key(&admin));
}

#[test]
fn test_migrate_admin_noops_when_no_admin_set() {
    let mut ac = AccessControl::new();
    let admin = addr("admin");
    migrate_admin(&mut ac);
    assert!(!ac.super_admins.contains_key(&admin));
}

#[test]
fn test_has_admin_returns_true_when_admin_set() {
    let (ac, _admin) = with_admin();
    assert!(has_admin(&ac));
}

#[test]
fn test_has_admin_returns_false_when_no_admin() {
    let ac = AccessControl::new();
    assert!(!has_admin(&ac));
}

#[test]
fn test_require_fee_admin_succeeds_for_admin() {
    let (ac, admin) = with_admin();
    assert_eq!(require_fee_admin(&ac, &admin), Ok(()));
}

#[test]
fn test_require_fee_admin_fails_when_role_not_held() {
    let (ac, _admin) = with_admin();
    let unauthorized = addr("unauthorized");
    assert_eq!(require_fee_admin(&ac, &unauthorized).map_err(|e| e.code()), Err(3));
}

// Governance proposals.

fn strkeys(addresses: &[Address]) -> Vec<String> {
    addresses.iter().map(|a| a.strkey().clone()).collect()
}

#[test]
fn test_set_admin_pool_stores_pool_and_threshold() {
    let (ac, admin) = with_admin();
    let mut gov = Governance::new();
    let member1 = addr("member1");
    let member2 = addr("member2");
    let _ = admin;
    set_admin_pool(&mut gov, &ac, vec![member1.duplicate(), member2.duplicate()], 2).unwrap();
    let pool = get_admin_pool(&gov, &ac);
    assert_eq!(strkeys(&pool), strkeys(&[member1, member2]));
    assert_eq!(get_threshold(&gov), 2);
}

#[test]
fn test_get_admin_pool_falls_back_to_single_admin() {
    let (ac, admin) = with_admin();
    let gov = Governance::new();
    let pool = get_admin_pool(&gov, &ac);
    assert_eq!(strkeys(&pool), strkeys(&[admin]));
}

#[test]
fn test_get_admin_pool_returns_empty_when_no_admin() {
    let ac = AccessControl::new();
    let gov = Governance::new();
    assert_eq!(get_admin_pool(&gov, &ac).len(), 0);
}

#[test]
fn test_get_threshold_defaults_to_one() {
    let gov = Governance::new();
    assert_eq!(get_threshold(&gov), 1);
}

#[test]
fn test_set_admin_pool_rejects_zero_threshold() {
    let (ac, _admin) = with_admin();
    let mut gov = Governance::new();
    let member = addr("member");
    assert_eq!(set_admin_pool(&mut gov, &ac, vec![member], 0), Err(AdminError::InvalidThreshold));
}

#[test]
fn test_set_admin_pool_rejects_threshold_exceeding_pool() {
    let (ac, _admin) = with_admin();
    let mut gov = Governance::new();
    let member = addr("member");
    assert_eq!(set_admin_pool(&mut gov, &ac, vec![member], 2), Err(AdminError::InvalidThreshold));
}

#[test]
fn test_set_admin_pool_rejects_zero_address_in_pool() {
    let (ac, _admin) = with_admin();
    let mut gov = Governance::new();
    let member = addr("member");
    let result = set_admin_pool(&mut gov, &ac, vec![member, zero_address()], 2);
    assert_eq!(result.map_err(|e| e.code()), Err(4));
}

#[test]
fn test_create_proposal_creates_and_auto_approves_for_creator() {
    let (ac, admin) = with_admin();
    let mut gov = Governance::new();
    set_admin_pool(&mut gov, &ac, vec![admin.duplicate()], 1).unwrap();
    let id = create_proposal(&mut gov, &ac, &admin, "test proposal".to_string(), 0).unwrap();
    assert_eq!(is_proposal_ready(&gov, id), Ok(true));
}

#[test]
fn test_create_proposal_works_with_fallback_admin_pool() {
    let mut ac = AccessControl::new();
    let admin = addr("admin");
    init_storage(&mut ac, &admin).unwrap();
    let mut gov = Governance::new();
    let id = create_proposal(&mut gov, &ac, &admin, "fallback test".to_string(), 0).unwrap();
    assert_eq!(is_proposal_ready(&gov, id), Ok(true));
}

#[test]
fn test_create_proposal_rejects_non_admin() {
    let (ac, _admin) = with_admin();
    let mut gov = Governance::new();
    let stranger = addr("stranger");
    assert!(create_proposal(&mut gov, &ac, &stranger, "hack attempt".to_string(), 0).is_err());
}

#[test]
fn test_approve_proposal_adds_approval() {
    let (ac, admin) = with_admin();
    let mut gov = Governance::new();
    let member = addr("member");
    set_admin_pool(&mut gov, &ac, vec![admin.duplicate(), member.duplicate()], 2).unwrap();
    let id = create_proposal(&mut gov, &ac, &admin, "multi-sig test".to_string(), 0).unwrap();
    assert_eq!(is_proposal_ready(&gov, id), Ok(false));
    approve_proposal(&mut gov, &ac, &member, id, 0).unwrap();
    assert_eq!(is_proposal_ready(&gov, id), Ok(true));
}

#[test]
fn test_approve_proposal_rejects_non_admin() {
    let (ac, admin) = with_admin();
    let mut gov = Governance::new();
    let stranger = addr("stranger");
    let id = create_proposal(&mut gov, &ac, &admin, "test".to_string(), 0).unwrap();
    assert!(approve_proposal(&mut gov, &ac, &stranger, id, 0).is_err());
}

#[test]
fn test_approve_proposal_rejects_duplicate_approval() {
    let (ac, admin) = with_admin();
    let mut gov = Governance::new();
    let id = create_proposal(&mut gov, &ac, &admin, "test".to_string(), 0).unwrap();
    assert_eq!(approve_proposal(&mut gov, &ac, &admin, id, 0), Err(AdminError::ProposalAlreadyApproved));
}

#[test]
fn test_approve_proposal_rejects_nonexistent_proposal() {
    let (ac, admin) = with_admin();
    let mut gov = Governance::new();
    assert_eq!(approve_proposal(&mut gov, &ac, &admin, 9999, 0), Err(AdminError::ProposalNotFound));
}

#[test]
fn test_mark_executed_completes_proposal() {
    let (ac, admin) = with_admin();
    let mut gov = Governance::new();
    let member = addr("member");
    set_admin_pool(&mut gov, &ac, vec![admin.duplicate(), member.duplicate()], 2).unwrap();
    let id = create_proposal(&mut gov, &ac, &admin, "exec test".to_string(), 0).unwrap();
    approve_proposal(&mut gov, &ac, &member, id, 0).unwrap();
    assert_eq!(is_proposal_ready(&gov, id), Ok(true));
    assert_eq!(mark_executed(&mut gov, &ac, id), Ok(()));
}

#[test]
fn test_mark_executed_rejects_already_executed() {
    let (ac, admin) = with_admin();
    let mut gov = Governance::new();
    let member = addr("member");
    set_admin_pool(&mut gov, &ac, vec![admin.duplicate(), member.duplicate()], 2).unwrap();
    let id = create_proposal(&mut gov, &ac, &admin, "exec test".to_string(), 0).unwrap();
    approve_proposal(&mut gov, &ac, &member, id, 0).unwrap();
    mark_executed(&mut gov, &ac, id).unwrap();
    assert_eq!(mark_executed(&mut gov, &ac, id), Err(AdminError::ProposalAlreadyExecuted));
}

#[test]
fn test_mark_executed_rejects_insufficient_approvals() {
    let (ac, admin) = with_admin();
    let mut gov = Governance::new();
    let member = addr("member");
    set_admin_pool(&mut gov, &ac, vec![admin.duplicate(), member.duplicate()], 2).unwrap();
    let id = create_proposal(&mut gov, &ac, &admin, "exec test".to_string(), 0).unwrap();
    assert_eq!(mark_executed(&mut gov, &ac, id), Err(AdminError::ThresholdNotMet));
}

#[test]
fn test_mark_executed_rejects_nonexistent_proposal() {
    let (ac, _admin) = with_admin();
    let mut gov = Governance::new();
    assert_eq!(mark_executed(&mut gov, &ac, 9999), Err(AdminError::ProposalNotFound));
}

#[test]
fn test_is_proposal_ready_returns_false_for_nonexistent_proposal() {
    let gov = Governance::new();
    assert!(is_proposal_ready(&gov, 9999).is_err());
}

#[test]
fn quorate_proposal_records_unlock_time_once() {
    let (ac, admin) = with_admin();
    let mut gov = Governance::new();
    let member = addr("member");
    set_admin_pool(&mut gov, &ac, vec![admin.duplicate(), member.duplicate()], 1).unwrap();
    let id = create_proposal(&mut gov, &ac, &admin, "timelock".to_string(), 100).unwrap();
    assert_eq!(get_proposal_unlock_time(&gov, id), Some(100 + 86400));
    approve_proposal(&mut gov, &ac, &member, id, 5000).unwrap();
    assert_eq!(get_proposal_unlock_time(&gov, id), Some(100 + 86400));
}

fn single_pool(ac: &AccessControl, admin: &Address, others: &[&Address], threshold: u32) -> Governance {
    let mut pool = vec![admin.duplicate()];
    for o in others {
        pool.push(o.duplicate());
    }
    let mut gov = Governance::new();
    set_admin_pool(&mut gov, ac, pool, threshold).unwrap();
    gov
}

#[test]
fn test_cancel_proposal_removes_from_state() {
    let (ac, admin) = with_admin();
    let mut gov = single_pool(&ac, &admin, &[], 1);
    let id = create_proposal(&mut gov, &ac, &admin, "to cancel".to_string(), 0).unwrap();
    assert_eq!(is_proposal_ready(&gov, id), Ok(true));
    gov.cancel_proposal(&admin, id).unwrap();
    assert!(is_proposal_ready(&gov, id).is_err());
}

#[test]
fn test_cancel_proposal_removes_timelock() {
    let (ac, admin) = with_admin();
    let mut gov = single_pool(&ac, &admin, &[], 1);
    let id = create_proposal(&mut gov, &ac, &admin, "timelock test".to_string(), 0).unwrap();
    assert!(get_proposal_unlock_time(&gov, id).is_some());
    gov.cancel_proposal(&admin, id).unwrap();
    assert!(get_proposal_unlock_time(&gov, id).is_none());
}

#[test]
fn test_cancel_proposal_rejects_non_creator() {
    let (ac, admin) = with_admin();
    let stranger = addr("stranger");
    let mut gov = single_pool(&ac, &admin, &[&stranger], 2);
    let id = create_proposal(&mut gov, &ac, &admin, "not yours".to_string(), 0).unwrap();
    assert_eq!(gov.cancel_proposal(&stranger, id), Err(AdminError::NotProposalCreator));
}

#[test]
fn test_cancel_proposal_rejects_already_executed() {
    let (ac, admin) = with_admin();
    let mut gov = single_pool(&ac, &admin, &[], 1);
    let id = create_proposal(&mut gov, &ac, &admin, "exec then cancel".to_string(), 0).unwrap();
    mark_executed(&mut gov, &ac, id).unwrap();
    assert_eq!(gov.cancel_proposal(&admin, id), Err(AdminError::ProposalAlreadyExecuted));
}

#[test]
fn test_cancel_proposal_rejects_nonexistent_proposal() {
    let admin = addr("admin");
    let mut gov = Governance::new();
    assert!(gov.cancel_proposal(&admin, 9999).is_err());
}
