use std::time::Duration;

use arkavo_protocol::security_fixes::{parse_did_key_fixed, DidKeyError, RateLimitError, RateLimiter, TokenError, TokenStore};

#[test]
fn test_token_revocation() {
    let mut store = TokenStore::new(100);
    assert!(!store.is_revoked("token1"));
    store.revoke("token1");
    assert!(store.is_revoked("token1"));
}

#[test]
fn test_token_replay_protection() {
    let mut store = TokenStore::new(100);
    assert!(store.mark_used("jti1").is_ok());
    assert!(matches!(store.mark_used("jti1"), Err(TokenError::AlreadyUsed)));
}

#[test]
fn test_rate_limiter() {
    let mut limiter = RateLimiter::new(3, Duration::from_secs(60));
    assert!(limiter.check().is_ok());
    assert!(limiter.check().is_ok());
    assert!(limiter.check().is_ok());
    assert!(matches!(limiter.check(), Err(RateLimitError::LimitExceeded)));
}

#[test]
fn test_rate_limiter_with_very_large_window() {
    let very_large_window = Duration::from_secs(365 * 24 * 60 * 60);
    let mut limiter = RateLimiter::new(3, very_large_window);

    assert!(limiter.check().is_ok());
    assert!(limiter.check().is_ok());

    let count = limiter.current_count();
    assert_eq!(count, 2);
}

#[test]
fn test_rate_limiter_window_edge_case() {
    let mut limiter = RateLimiter::new(3, Duration::from_secs(0));

    assert!(limiter.check().is_ok());
    assert!(limiter.check().is_ok());
    assert!(limiter.check().is_ok());

    assert!(limiter.check().is_ok());
}

#[test]
fn test_did_key_parsing_invalid_length() {
    assert!(matches!(parse_did_key_fixed("did:key:z6Mk"), Err(DidKeyError::InvalidLength { .. })));
    let result = parse_did_key_fixed("did:key:z111111");
    assert!(
        matches!(result, Err(DidKeyError::InvalidLength { .. } | DidKeyError::InvalidMulticodec)),
        "Expected InvalidLength or InvalidMulticodec, got {:?}",
        result
    );
}

#[test]
fn test_ephemeral_setup_token() {
    let mut store = TokenStore::new(100);

    assert!(!store.is_revoked("setup-token-123"));

    store.revoke("setup-token-123");
    assert!(store.is_revoked("setup-token-123"));

    assert!(store.mark_used("setup-jti-456").is_ok());
    assert!(matches!(store.mark_used("setup-jti-456"), Err(TokenError::AlreadyUsed)));
}

#[test]
fn test_rate_limiter_multiple_keys() {
    let mut limiter1 = RateLimiter::new(3, Duration::from_secs(60));
    let mut limiter2 = RateLimiter::new(3, Duration::from_secs(60));

    assert!(limiter1.check().is_ok());
    assert!(limiter1.check().is_ok());
    assert!(limiter2.check().is_ok());

    assert_eq!(limiter1.current_count(), 2);
    assert_eq!(limiter2.current_count(), 1);

    assert!(limiter1.check().is_ok());
    assert!(matches!(limiter1.check(), Err(RateLimitError::LimitExceeded)));

    assert!(limiter2.check().is_ok());
}

#[test]
fn test_no_localhost_trust_exemption_comprehensive() {
    let mut store = TokenStore::new(100);

    let tokens = vec!["local-token", "localhost-token", "127.0.0.1-token", "internal-token", "external-token"];

    for token in &tokens {
        assert!(!store.is_revoked(token));
        store.revoke(token);
        assert!(store.is_revoked(token));
    }

    let jtis = vec!["jti-local", "jti-localhost", "jti-internal", "jti-external"];

    for jti in &jtis {
        assert!(store.mark_used(jti).is_ok());
        assert!(matches!(store.mark_used(jti), Err(TokenError::AlreadyUsed)));
    }
}

#[test]
fn a_tiny_cache_never_forgets_a_revocation() {
    let mut store = TokenStore::new(1);
    store.revoke("a");
    store.revoke("b");
    assert!(!store.is_revoked("c"));
    assert!(store.is_revoked("a"));
    assert!(store.is_revoked("b"));
    assert!(!store.is_used("a"));
    assert!(TokenStore::new(0).mark_used("x").is_ok());
}

#[test]
fn windows_forget_old_requests() {
    let mut limiter = RateLimiter::new(2, Duration::from_nanos(100));
    assert!(limiter.check_at(1_000).is_ok());
    assert!(limiter.check_at(1_050).is_ok());
    assert!(limiter.check_at(1_080).is_err());
    assert_eq!(limiter.count_at(1_080), 2);
    assert_eq!(limiter.count_at(1_120), 1);
    assert!(limiter.check_at(1_120).is_ok());
    assert_eq!(limiter.count_at(1_120), 2);
}

#[test]
fn a_valid_did_key_yields_its_public_key() {
    let mut bytes = vec![0xed_u8, 0x01];
    bytes.extend((0..32).map(|i| i as u8));
    let did = format!("did:key:z{}", bs58::encode(&bytes).into_string());
    assert_eq!(parse_did_key_fixed(&did).expect("valid"), (0..32).map(|i| i as u8).collect::<Vec<u8>>());

    let mut wrong = vec![0x12_u8, 0x00];
    wrong.extend([7u8; 32]);
    let did = format!("did:key:z{}", bs58::encode(&wrong).into_string());
    assert_eq!(parse_did_key_fixed(&did), Err(DidKeyError::InvalidMulticodec));

    assert_eq!(parse_did_key_fixed("did:web:example.com"), Err(DidKeyError::InvalidPrefix));
    assert_eq!(parse_did_key_fixed("did:key:z0OIl"), Err(DidKeyError::InvalidEncoding));
}

#[test]
fn errors_describe_themselves() {
    assert_eq!(
        DidKeyError::InvalidLength { expected: 34, actual: 3 }.to_string(),
        "Invalid length: expected 34, got 3"
    );
    assert_eq!(RateLimitError::LimitExceeded.to_string(), "Rate limit exceeded");
    assert_eq!(TokenError::Revoked.to_string(), "Token has been revoked");
}
