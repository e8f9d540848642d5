use arkavo_protocol::rate_limit::{
    admission, client_ip_source, retry_rejection, first_forwarded, least_recently_used, rejection, ClientIpSource, RateLimitConfig,
    RATE_LIMIT_ERROR_CODE,
};

#[test]
fn test_rate_limit_config_default() {
    let config = RateLimitConfig::default();
    assert_eq!(config.max_requests_per_second, 100);
    assert_eq!(config.burst_size, 10);
    assert!(config.enabled);
    assert_eq!(config.max_ip_entries, 10_000);
    assert_eq!(config.ip_entry_ttl_seconds, 3600);
}

#[test]
fn zero_quotas_fall_back_to_defaults() {
    let mut config = RateLimitConfig::default();
    config.max_requests_per_second = 0;
    config.burst_size = 0;
    assert_eq!(config.per_second_quota(), 100);
    assert_eq!(config.burst_quota(), 10);
    config.max_requests_per_second = 7;
    config.burst_size = 3;
    assert_eq!(config.per_second_quota(), 7);
    assert_eq!(config.burst_quota(), 3);
}

#[test]
fn entries_expire_after_their_ttl() {
    let mut config = RateLimitConfig::default();
    config.ip_entry_ttl_seconds = 2;
    assert!(!config.entry_expired(2_000_000_000));
    assert!(config.entry_expired(2_000_000_001));
    assert!(config.kept_by_cleanup(1_999_999_999));
    assert!(!config.kept_by_cleanup(2_000_000_000));
    config.ip_entry_ttl_seconds = 0;
    assert!(!config.entry_expired(u128::MAX));
    assert!(config.kept_by_cleanup(u128::MAX));
}

#[test]
fn eviction_trims_to_nine_tenths() {
    let mut config = RateLimitConfig::default();
    assert_eq!(config.eviction_target(), 9_000);
    config.max_ip_entries = 15;
    assert_eq!(config.eviction_target(), 13);
    config.max_ip_entries = usize::MAX;
    assert!(config.eviction_target() < usize::MAX);
}

#[test]
fn rejections_name_the_client() {
    let r = rejection(Some("10.0.0.1"));
    assert_eq!(r.code, RATE_LIMIT_ERROR_CODE);
    assert!(r.message.contains("Rate limit"));
    assert_eq!(r.data.as_deref(), Some("Too many requests from IP 10.0.0.1. Please try again later."));
    let mut config = RateLimitConfig::default();
    assert!(admission(&config, false, None).is_err());
    assert!(admission(&config, true, None).is_ok());
    config.enabled = false;
    assert!(admission(&config, false, None).is_ok());
}

#[test]
fn the_least_recently_used_are_evicted_down_to_the_target() {
    // Idle times per entry; ties go in listing order.
    let ages = vec![5u128, 50, 7, 50, 1];
    assert_eq!(least_recently_used(&ages, 3), vec![1, 3]);
    assert_eq!(least_recently_used(&ages, 2), vec![1, 2, 3]);
    assert_eq!(least_recently_used(&ages, 5), Vec::<usize>::new());
    assert_eq!(least_recently_used(&ages, 9), Vec::<usize>::new());
    assert_eq!(least_recently_used(&ages, 0), vec![0, 1, 2, 3, 4]);
    assert_eq!(least_recently_used(&[4u128, 4, 4], 1), vec![0, 1]);
}

#[test]
fn a_queued_access_is_stale_when_it_is_the_last_or_expired() {
    let mut config = RateLimitConfig::default();
    config.ip_entry_ttl_seconds = 2;
    assert!(!config.queued_entry_stale(None, u128::MAX));
    assert!(config.queued_entry_stale(Some(true), 0));
    assert!(!config.queued_entry_stale(Some(false), 2_000_000_000));
    assert!(config.queued_entry_stale(Some(false), 2_000_000_001));
    config.ip_entry_ttl_seconds = 0;
    assert!(!config.queued_entry_stale(Some(false), u128::MAX));
}

#[test]
fn the_first_forwarded_address_is_trimmed() {
    assert_eq!(first_forwarded(" 203.0.113.7 , 10.0.0.1"), "203.0.113.7");
    assert_eq!(first_forwarded("198.51.100.2"), "198.51.100.2");
    assert_eq!(first_forwarded(",10.0.0.1"), "");
    assert_eq!(first_forwarded(""), "");
}

#[test]
fn headers_count_only_from_a_trusted_proxy() {
    assert_eq!(client_ip_source(true, true, true), ClientIpSource::ForwardedFor);
    assert_eq!(client_ip_source(true, false, true), ClientIpSource::RealIp);
    assert_eq!(client_ip_source(true, false, false), ClientIpSource::Peer);
    assert_eq!(client_ip_source(false, true, true), ClientIpSource::Peer);
}

#[test]
fn test_rate_limit_from_arp_defaults() {
    let config = RateLimitConfig::from_arp(None, None, None, None);
    let defaults = RateLimitConfig::default();
    assert_eq!(config.max_requests_per_second, defaults.max_requests_per_second);
    assert_eq!(config.burst_size, defaults.burst_size);
    assert_eq!(config.max_ip_entries, defaults.max_ip_entries);
    assert_eq!(config.ip_entry_ttl_seconds, defaults.ip_entry_ttl_seconds);
    assert!(config.enabled);
}

#[test]
fn test_rate_limit_from_arp_overrides() {
    let config = RateLimitConfig::from_arp(Some(50), Some(5), Some(5000), Some(1800));
    assert_eq!(config.max_requests_per_second, 50);
    assert_eq!(config.burst_size, 5);
    assert_eq!(config.max_ip_entries, 5000);
    assert_eq!(config.ip_entry_ttl_seconds, 1800);
    assert_eq!(RateLimitConfig::from_arp(None, Some(7_000_000), None, None).burst_size, 1_000_000);
}

#[test]
fn a_delayed_rejection_names_the_wait() {
    let r = retry_rejection(1234);
    assert_eq!(r.code, RATE_LIMIT_ERROR_CODE);
    assert_eq!(r.message, "Rate limit exceeded");
    assert_eq!(r.data.as_deref(), Some("Too many requests. Retry after 1234 ms"));
    assert_eq!(retry_rejection(0).data.as_deref(), Some("Too many requests. Retry after 0 ms"));
}
