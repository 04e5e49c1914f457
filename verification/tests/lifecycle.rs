use bc_forge::address::Address;
use bc_forge::lifecycle::{is_paused, pause, require_not_paused, unpause, Lifecycle, LifecycleError};
use bc_forge::rbac::{set_admin, AccessControl, AdminError};

fn addr(name: &str) -> Address {
    Address::new(format!("G{}", name.to_uppercase()))
}

fn setup_test() -> (Lifecycle, AccessControl, Address) {
    let mut ac = AccessControl::new();
    let admin = addr("admin");
    set_admin(&mut ac, &admin).unwrap();
    (Lifecycle::new(), ac, admin)
}

#[test]
fn test_initial_state_not_paused() {
    let lc = Lifecycle::new();
    assert!(!is_paused(&lc));
}

#[test]
fn test_pause_and_unpause() {
    let (mut lc, ac, admin) = setup_test();
    pause(&mut lc, &ac, &admin).unwrap();
    assert!(is_paused(&lc));
    unpause(&mut lc, &ac, &admin).unwrap();
    assert!(!is_paused(&lc));
}

#[test]
fn test_double_pause_panics() {
    let (mut lc, ac, admin) = setup_test();
    pause(&mut lc, &ac, &admin).unwrap();
    assert_eq!(pause(&mut lc, &ac, &admin), Err(LifecycleError::AlreadyPaused));
}

#[test]
fn test_unpause_when_not_paused_panics() {
    let (mut lc, ac, admin) = setup_test();
    assert_eq!(unpause(&mut lc, &ac, &admin), Err(LifecycleError::NotPaused));
}

#[test]
fn test_require_not_paused_panics_when_paused() {
    let (mut lc, ac, admin) = setup_test();
    assert_eq!(require_not_paused(&lc), Ok(()));
    pause(&mut lc, &ac, &admin).unwrap();
    assert_eq!(require_not_paused(&lc), Err(LifecycleError::Paused));
}

#[test]
fn test_pause_without_pauser_role_panics() {
    let mut lc = Lifecycle::new();
    let ac = AccessControl::new();
    let stranger = addr("stranger");
    let result = pause(&mut lc, &ac, &stranger);
    assert_eq!(result, Err(LifecycleError::Access(AdminError::UnauthorizedRole)));
    assert_eq!(AdminError::UnauthorizedRole.code(), 3);
    assert!(!is_paused(&lc));
}

#[test]
fn test_unpause_without_pauser_role_panics() {
    let mut lc = Lifecycle::new();
    let ac = AccessControl::new();
    let stranger = addr("stranger");
    let result = unpause(&mut lc, &ac, &stranger);
    assert_eq!(result, Err(LifecycleError::Access(AdminError::UnauthorizedRole)));
}
