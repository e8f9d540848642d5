use arkavo_protocol::task_contract::{
    AcceptanceCriterion, ContractReview, ContractTier, CriterionFeedback, VerificationMethod, MAX_REVISION_ROUNDS,
    SCHEMA_CONTRACT_APPROVED, SCHEMA_CONTRACT_PROPOSAL, SCHEMA_CONTRACT_REVIEW,
};
use uuid::Uuid;

#[test]
fn test_review_approve() {
    let id = Uuid::new_v4();
    let review = ContractReview::approve(id, 1);
    assert!(review.approved);
    assert_eq!(review.round, 1);
    assert!(review.feedback.is_empty());
    assert_eq!(review.contract_id, id);
    assert_eq!(review.max_rounds, MAX_REVISION_ROUNDS);
}

#[test]
fn test_review_revise() {
    let id = Uuid::new_v4();
    let feedback = vec![CriterionFeedback {
        criterion_id: "ac1".to_string(),
        accepted: false,
        reason: Some("threshold too generous".to_string()),
        suggested_revision: Some("zone.path_distance <= 15".to_string()),
    }];
    let review = ContractReview::revise(id, feedback, 1);
    assert!(!review.approved);
    assert_eq!(review.feedback.len(), 1);
}

#[test]
fn test_schema_urns_are_distinct() {
    assert_ne!(SCHEMA_CONTRACT_PROPOSAL, SCHEMA_CONTRACT_REVIEW);
    assert_ne!(SCHEMA_CONTRACT_REVIEW, SCHEMA_CONTRACT_APPROVED);
    assert_ne!(SCHEMA_CONTRACT_PROPOSAL, SCHEMA_CONTRACT_APPROVED);
}

#[test]
fn criteria_carry_their_verification_method() {
    let c = AcceptanceCriterion {
        id: "ac1".to_string(),
        criterion: "zone covers area".to_string(),
        verification: VerificationMethod::Custom("manual check".to_string()),
        threshold: None,
    };
    assert_eq!(c.clone(), c);
    assert_ne!(ContractTier::Candidate, ContractTier::Canonical);
}
