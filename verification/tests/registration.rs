use arkavo_protocol::error::A2aError;
use arkavo_protocol::registration::{
    ChallengeRequest, RegistrationService, SignatureOutcome, SignatureScheme, VerifyRequest,
};
use base64::Engine;

fn b64(bytes: &[u8]) -> String {
    base64::engine::general_purpose::STANDARD.encode(bytes)
}

fn request(challenge_id: &str, device: &str, key: &[u8]) -> VerifyRequest {
    VerifyRequest {
        challenge_id: challenge_id.to_string(),
        device_id: device.to_string(),
        public_key: b64(key),
        signature: b64(&[1u8; 64]),
        delegation_jwt: None,
    }
}

fn invalid(e: A2aError) -> String {
    match e {
        A2aError::InvalidRequest(m) => m,
        other => panic!("unexpected error {other:?}"),
    }
}

#[test]
fn test_create_challenge() {
    let mut service = RegistrationService::new();
    let response = service.create_challenge(ChallengeRequest { device_id: "test-device".to_string() }).unwrap();
    assert!(!response.challenge_id.is_empty());
    assert!(!response.challenge.is_empty());
    assert_eq!(base64::engine::general_purpose::STANDARD.decode(&response.challenge).unwrap().len(), 32);
    let err = service.create_challenge(ChallengeRequest { device_id: String::new() }).unwrap_err();
    assert_eq!(invalid(err), "Device ID cannot be empty");
}

#[test]
fn a_recorded_challenge_is_named_by_its_digest() {
    let mut service = RegistrationService::new();
    let r = service.record_challenge("dev", vec![0u8; 32], 1_000);
    assert_eq!(r.challenge_id, "66687aadf862bd776c8fc18b8e9f8e20089714856ee233b3902a591d0d5f2925");
    assert_eq!(r.challenge, b64(&[0u8; 32]));
    assert_eq!(r.timestamp, 1_000);
}

#[test]
fn verification_checks_the_challenge_before_the_signature() {
    let mut service = RegistrationService::new();
    let c = service.record_challenge("dev", vec![7u8; 32], 1_000);

    assert_eq!(invalid(service.begin_verification(&request("nope", "dev", &[0; 32]), 1_000).unwrap_err()), "Challenge not found");
    assert_eq!(invalid(service.begin_verification(&request(&c.challenge_id, "dev", &[0; 32]), 1_300).unwrap_err()), "Challenge expired");
    assert_eq!(invalid(service.begin_verification(&request(&c.challenge_id, "other", &[0; 32]), 1_299).unwrap_err()), "Device ID mismatch");
    let mut bad = request(&c.challenge_id, "dev", &[0; 32]);
    bad.public_key = "***".to_string();
    assert!(invalid(service.begin_verification(&bad, 1_000).unwrap_err()).starts_with("Invalid public key: "));
    assert_eq!(
        invalid(service.begin_verification(&request(&c.challenge_id, "dev", &[0; 40]), 1_000).unwrap_err()),
        "Unsupported public key length: 40 bytes. Expected 32 (Ed25519) or 33/65 (P-256)"
    );
    let ed = service.begin_verification(&request(&c.challenge_id, "dev", &[0; 32]), 1_000).unwrap();
    assert_eq!(ed.scheme, SignatureScheme::Ed25519);
    assert_eq!(ed.message, vec![7u8; 32]);
    let p = service.begin_verification(&request(&c.challenge_id, "dev", &[4; 65]), 1_000).unwrap();
    assert_eq!(p.scheme, SignatureScheme::P256);
}

#[test]
fn a_valid_signature_registers_the_device_once() {
    let mut service = RegistrationService::new();
    let c = service.record_challenge("dev", vec![9u8; 32], 1_000);
    let req = request(&c.challenge_id, "dev", &[3; 32]);

    let check = service.begin_verification(&req, 1_010).unwrap();
    let rejected = service.complete_verification(&req, check.clone(), SignatureOutcome::Rejected, 1_010).unwrap_err();
    assert_eq!(rejected, A2aError::AuthenticationFailed("Ed25519 signature verification failed".to_string()));
    assert!(!service.get_registration_status("dev").unwrap().verified);

    let ok = service.complete_verification(&req, check, SignatureOutcome::Valid, 1_020).unwrap();
    assert!(ok.success);
    let status = service.get_registration_status("dev").unwrap();
    assert!(status.verified);
    assert_eq!(status.registered_at, 1_020);

    // The challenge is consumed: a replay finds nothing.
    assert_eq!(invalid(service.begin_verification(&req, 1_030).unwrap_err()), "Challenge not found");
}

#[test]
fn old_challenges_are_dropped_when_new_ones_arrive() {
    let mut service = RegistrationService::new();
    let first = service.record_challenge("dev", vec![1u8; 32], 1_000);
    service.record_challenge("dev", vec![2u8; 32], 1_301);
    assert_eq!(
        invalid(service.begin_verification(&request(&first.challenge_id, "dev", &[0; 32]), 1_301).unwrap_err()),
        "Challenge not found"
    );
}

#[test]
fn an_unparseable_key_is_an_invalid_request() {
    let mut service = RegistrationService::new();
    let c = service.record_challenge("dev", vec![5u8; 32], 10);
    let req = request(&c.challenge_id, "dev", &[2; 33]);
    let check = service.begin_verification(&req, 10).unwrap();
    let err = service.complete_verification(&req, check, SignatureOutcome::InvalidKey("bad point".to_string()), 10).unwrap_err();
    assert_eq!(invalid(err), "Invalid P-256 public key: bad point");
}
