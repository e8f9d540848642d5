use arkavo_protocol::security::{AuthMethod, SecurityConfig, TlsVersion};

#[test]
fn test_default_security_config() {
    let config = SecurityConfig::default();
    assert!(config.tls.enabled);
    assert!(config.tls.verify_certificates);
    assert!(matches!(config.authentication.method, AuthMethod::NoAuth));
}

#[test]
fn test_security_config_builder() {
    let config = SecurityConfig::builder()
        .tls_enabled(true)
        .verify_certificates(false)
        .minimum_tls_version(TlsVersion::Tls13)
        .bearer_token("test-token".to_string())
        .rate_limiting(true, 50, 100)
        .build()
        .unwrap();

    assert!(config.tls.enabled);
    assert!(!config.tls.verify_certificates);
    assert!(matches!(config.tls.minimum_tls_version, TlsVersion::Tls13));
    assert!(matches!(config.authentication.method, AuthMethod::Bearer));
    assert_eq!(config.authentication.token, Some("test-token".to_string()));
    assert_eq!(config.rate_limiting.requests_per_second, 50);
}

#[test]
fn test_validation_missing_key() {
    let mut config = SecurityConfig::default();
    config.tls.client_cert_path = Some("/path/to/cert".to_string());

    let result = config.validate();
    assert!(result.is_err());
    assert!(result.unwrap_err().to_string().contains("client key is missing"));
}

#[test]
fn a_missing_certificate_file_is_reported_by_path() {
    let mut config = SecurityConfig::default();
    config.tls.client_cert_path = Some("/no/such/cert.pem".to_string());
    config.tls.client_key_path = Some("/no/such/key.pem".to_string());

    let err = config.validate().unwrap_err();
    assert_eq!(err.to_string(), "TLS error: Client certificate file not found: /no/such/cert.pem");
    let known = config.validate_with(true, false).unwrap_err();
    assert_eq!(known.to_string(), "TLS error: Client key file not found: /no/such/key.pem");
    assert!(config.validate_with(true, true).is_ok());
}

#[test]
fn tls_version_names() {
    assert_eq!(TlsVersion::Tls12.as_str(), "TLS 1.2");
    assert_eq!(TlsVersion::Tls13.as_str(), "TLS 1.3");
}
