use bc_forge::address::Address;
use bc_forge::rate_limit::{BcForgeRateLimit, RateLimitConfig, RateLimitVerdict};

fn addr(name: &str) -> Address {
    Address::new(format!("G{}", name.to_uppercase()))
}

#[test]
fn test_global_rate_limit_set_event() {
    let mut limits = BcForgeRateLimit::new();
    let op = "mint".to_string();
    limits.set_global_rate_limit(op.clone(), 5, 3600);
    assert_eq!(
        limits.global_limits.get(&op).copied(),
        Some(RateLimitConfig { limit: 5, window_seconds: 3600 })
    );
}

#[test]
fn test_address_rate_limit_set_event() {
    let mut limits = BcForgeRateLimit::new();
    let a = addr("a");
    let op = "transfer".to_string();
    limits.set_address_rate_limit(a.duplicate(), op.clone(), 3, 600);
    assert_eq!(
        limits.address_limits.get(&(a, op)).copied(),
        Some(RateLimitConfig { limit: 3, window_seconds: 600 })
    );
}

#[test]
fn test_global_rate_limit_exceeded_event() {
    let mut limits = BcForgeRateLimit::new();
    let op = "mint".to_string();
    limits.set_global_rate_limit(op.clone(), 2, 1000);
    assert_eq!(limits.check_rate_limit_verdict(None, &op, 0), RateLimitVerdict::Allowed);
    assert_eq!(limits.check_rate_limit_verdict(None, &op, 0), RateLimitVerdict::Allowed);
    assert_eq!(
        limits.check_rate_limit_verdict(None, &op, 0),
        RateLimitVerdict::GlobalExceeded { count: 2, limit: 2, window_seconds: 1000 }
    );
}

#[test]
fn test_address_rate_limit_exceeded_event() {
    let mut limits = BcForgeRateLimit::new();
    let a = addr("a");
    let op = "transfer".to_string();
    limits.set_address_rate_limit(a.duplicate(), op.clone(), 1, 500);
    assert!(limits.check_rate_limit(Some(a.duplicate()), op.clone(), 0, 0));
    assert_eq!(
        limits.check_rate_limit_verdict(Some(&a), &op, 0),
        RateLimitVerdict::AddressExceeded { count: 1, limit: 1, window_seconds: 500 }
    );
}

#[test]
fn test_rate_limit_exceeded_limit_one() {
    let mut limits = BcForgeRateLimit::new();
    let op = "mint".to_string();
    limits.set_global_rate_limit(op.clone(), 1, 1000);
    assert!(limits.check_rate_limit(None, op.clone(), 0, 0));
    assert!(!limits.check_rate_limit(None, op.clone(), 0, 0));
}

#[test]
fn test_rate_limit_window_reset() {
    let mut limits = BcForgeRateLimit::new();
    let op = "mint".to_string();
    limits.set_global_rate_limit(op.clone(), 1, 100);
    assert!(limits.check_rate_limit(None, op.clone(), 0, 1000));
    assert!(!limits.check_rate_limit(None, op.clone(), 0, 1000));
    assert!(limits.check_rate_limit(None, op.clone(), 0, 2000));
}

#[test]
fn unconfigured_operations_are_always_allowed() {
    let mut limits = BcForgeRateLimit::new();
    let a = addr("a");
    for t in 0..10u64 {
        assert!(limits.internal_check_rate_limit(Some(&a), &"burn".to_string(), 1, t));
    }
}

#[test]
fn peek_counts_nothing() {
    let mut limits = BcForgeRateLimit::new();
    let op = "mint".to_string();
    limits.set_global_rate_limit(op.clone(), 1, 10);
    assert_eq!(limits.peek_verdict(None, &op, 0), RateLimitVerdict::Allowed);
    assert_eq!(limits.peek_verdict(None, &op, 0), RateLimitVerdict::Allowed);
    assert!(limits.check_rate_limit(None, op.clone(), 0, 0));
    assert_eq!(
        limits.peek_verdict(None, &op, 5),
        RateLimitVerdict::GlobalExceeded { count: 1, limit: 1, window_seconds: 10 }
    );
}

#[test]
fn global_refusal_spares_address_window() {
    let mut limits = BcForgeRateLimit::new();
    let a = addr("a");
    let op = "mint".to_string();
    limits.set_global_rate_limit(op.clone(), 1, 100);
    limits.set_address_rate_limit(a.duplicate(), op.clone(), 5, 100);
    assert!(limits.check_rate_limit(Some(a.duplicate()), op.clone(), 0, 0));
    assert!(!limits.check_rate_limit(Some(a.duplicate()), op.clone(), 0, 1));
    let st = limits.address_counts.get(&(a, op)).copied().unwrap();
    assert_eq!(st.count, 1);
}
