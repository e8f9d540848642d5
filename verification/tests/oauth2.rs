use arkavo_protocol::error::A2aError;
use arkavo_protocol::oauth2::{GrantType, OAuth2Config, OAuth2Provider, TokenRequest};

fn create_test_config() -> OAuth2Config {
    OAuth2Config {
        client_id: "test_client".to_string(),
        client_secret: "test_secret".to_string(),
        authorization_endpoint: "https://auth.example.com/authorize".to_string(),
        token_endpoint: "https://auth.example.com/token".to_string(),
        redirect_uri: "https://app.example.com/callback".to_string(),
        scopes: vec!["read".to_string(), "write".to_string()],
        issuer: "https://auth.example.com".to_string(),
        audience: Some("https://api.example.com".to_string()),
    }
}

fn code_request(code: Option<String>, client: &str, redirect: Option<&str>) -> TokenRequest {
    TokenRequest {
        grant_type: GrantType::AuthorizationCode,
        code,
        refresh_token: None,
        client_id: client.to_string(),
        client_secret: Some("test_secret".to_string()),
        redirect_uri: redirect.map(|r| r.to_string()),
        scope: None,
    }
}

fn auth_text(e: A2aError) -> String {
    match e {
        A2aError::Auth(m) => m,
        other => panic!("unexpected error {other:?}"),
    }
}

#[test]
fn test_authorization_code_flow() {
    let mut provider = OAuth2Provider::new(create_test_config(), "test_jwt_secret".to_string());

    let code = provider
        .generate_authorization_code(
            "test_client".to_string(),
            "https://app.example.com/callback".to_string(),
            vec!["read".to_string()],
            "user123".to_string(),
        )
        .unwrap();

    let response = provider
        .exchange_authorization_code(code_request(Some(code.clone()), "test_client", Some("https://app.example.com/callback")))
        .unwrap();

    assert_eq!(response.token_type, "Bearer");
    assert_eq!(response.expires_in, 3600);
    assert!(response.refresh_token.is_some());
    assert_eq!(response.scope.as_deref(), Some("read"));

    // A code is good for one exchange.
    let again = provider.exchange_authorization_code(code_request(Some(code), "test_client", None)).unwrap_err();
    assert_eq!(auth_text(again), "Invalid authorization code");
}

#[test]
fn test_refresh_token_flow() {
    let mut provider = OAuth2Provider::new(create_test_config(), "test_jwt_secret".to_string());
    let code = provider
        .generate_authorization_code(
            "test_client".to_string(),
            "https://app.example.com/callback".to_string(),
            vec!["read".to_string()],
            "user123".to_string(),
        )
        .unwrap();
    let initial = provider
        .exchange_authorization_code(code_request(Some(code), "test_client", Some("https://app.example.com/callback")))
        .unwrap();

    let refresh_request = TokenRequest {
        grant_type: GrantType::RefreshToken,
        code: None,
        refresh_token: initial.refresh_token,
        client_id: "test_client".to_string(),
        client_secret: Some("test_secret".to_string()),
        redirect_uri: None,
        scope: None,
    };

    let refreshed = provider.refresh_access_token(refresh_request).unwrap();

    assert_eq!(refreshed.token_type, "Bearer");
    assert!(refreshed.refresh_token.is_some());
}

#[test]
fn test_token_validation() {
    let mut provider = OAuth2Provider::new(create_test_config(), "test_jwt_secret".to_string());
    let code = provider
        .generate_authorization_code("test_client".to_string(), "cb".to_string(), vec!["read".to_string()], "user123".to_string())
        .unwrap();
    let tokens = provider.exchange_authorization_code(code_request(Some(code), "test_client", None)).unwrap();

    let validation_result = provider.validate_access_token(&tokens.access_token).unwrap();

    assert_eq!(validation_result.user_id, "user123");
    assert_eq!(validation_result.client_id, "test_client");
    assert_eq!(validation_result.scopes, vec!["read".to_string()]);
    assert_eq!(tokens.access_token.split('.').count(), 3);
}

#[test]
fn mismatched_or_expired_codes_are_refused_and_consumed() {
    let mut provider = OAuth2Provider::new(create_test_config(), "s".to_string());
    let code = provider.issue_authorization_code("c1".to_string(), 1_000, "client".to_string(), "cb".to_string(), vec![], "u".to_string());
    let err = provider.redeem_code(&code_request(Some(code.clone()), "other", None), 1_000).unwrap_err();
    assert_eq!(auth_text(err), "Client ID mismatch");
    let err = provider.redeem_code(&code_request(Some(code), "client", None), 1_000).unwrap_err();
    assert_eq!(auth_text(err), "Invalid authorization code");

    provider.issue_authorization_code("c2".to_string(), 1_000, "client".to_string(), "cb".to_string(), vec![], "u".to_string());
    let err = provider.redeem_code(&code_request(Some("c2".to_string()), "client", None), 1_601).unwrap_err();
    assert_eq!(auth_text(err), "Authorization code expired");

    provider.issue_authorization_code("c3".to_string(), 1_000, "client".to_string(), "cb".to_string(), vec![], "u".to_string());
    let err = provider.redeem_code(&code_request(Some("c3".to_string()), "client", Some("elsewhere")), 1_600).unwrap_err();
    assert_eq!(auth_text(err), "Redirect URI mismatch");

    provider.issue_authorization_code("c4".to_string(), 1_000, "client".to_string(), "cb".to_string(), vec![], "u".to_string());
    let grant = provider.redeem_code(&code_request(Some("c4".to_string()), "client", Some("cb")), 1_600).unwrap();
    assert_eq!(grant.user_id, "u");
    let err = provider.redeem_code(&code_request(None, "client", None), 1_600).unwrap_err();
    assert_eq!(auth_text(err), "Missing authorization code");
}

#[test]
fn tokens_expire_and_can_be_revoked() {
    let mut provider = OAuth2Provider::new(create_test_config(), "s".to_string());
    let response = provider.store_tokens(
        "acc".to_string(),
        "ref".to_string(),
        5_000,
        "u".to_string(),
        "client".to_string(),
        vec!["a".to_string(), "b".to_string()],
    );
    assert_eq!(response.scope.as_deref(), Some("a b"));
    assert!(provider.access_token_at("acc", 8_600).is_ok());
    assert_eq!(auth_text(provider.access_token_at("acc", 8_601).unwrap_err()), "Access token expired");
    assert_eq!(auth_text(provider.access_token_at("nope", 0).unwrap_err()), "Invalid access token");
    assert!(provider.revoke_token("acc").is_ok());
    assert!(provider.revoke_token("ref").is_ok());
    assert_eq!(auth_text(provider.revoke_token("ref").unwrap_err()), "Token not found");
}

#[test]
fn the_authorization_url_encodes_redirect_and_scopes() {
    let provider = OAuth2Provider::new(create_test_config(), "s".to_string());
    assert_eq!(
        provider.get_authorization_url("xyz"),
        "https://auth.example.com/authorize?response_type=code&client_id=test_client&redirect_uri=https%3A%2F%2Fapp.example.com%2Fcallback&scope=read%20write&state=xyz"
    );
}
