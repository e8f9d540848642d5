//! Task contract protocol: pre-execution contracts between an operator and a
//! critic that define deliverables, acceptance criteria and how each is
//! verified. Contracts travel as data parts tagged with schema URNs.

use vstd::prelude::*;

verus! {

/// Schema URN for contract proposal messages.
pub const SCHEMA_CONTRACT_PROPOSAL: &'static str = "urn:arkavo:contract:proposal";

/// Schema URN for contract review messages.
pub const SCHEMA_CONTRACT_REVIEW: &'static str = "urn:arkavo:contract:review";

/// Schema URN for approved contract messages.
pub const SCHEMA_CONTRACT_APPROVED: &'static str = "urn:arkavo:contract:approved";

/// Maximum revision rounds before escalation to the planner.
pub const MAX_REVISION_ROUNDS: u8 = 2;

#[verifier::external_type_specification]
#[verifier::external_body]
pub struct ExUuid(uuid::Uuid);

/// `Uuid::clone`: `Uuid` is `Copy`, so a clone is the same value.
pub assume_specification[ <uuid::Uuid as Clone>::clone ](u: &uuid::Uuid) -> (r: uuid::Uuid)
    ensures
        r == *u,
;

/// How an acceptance criterion is verified.
#[derive(Debug, Clone, PartialEq, Eq)]
pub enum VerificationMethod {
    /// Compare state before and after via observation deltas.
    StateDelta,
    /// Match against an expected output pattern.
    OutputMatch,
    /// Custom verification logic (a description of the method).
    Custom(String),
}

/// A single acceptance criterion within a contract.
#[derive(Debug, Clone, PartialEq, Eq)]
pub struct AcceptanceCriterion {
    /// Unique criterion identifier (such as `ac1`).
    pub id: String,
    /// What must be true.
    pub criterion: String,
    /// How to verify it.
    pub verification: VerificationMethod,
    /// Optional threshold expression (such as `zone.area >= 36`).
    pub threshold: Option<String>,
}

/// Feedback on a single criterion during review.
#[derive(Debug, Clone, PartialEq, Eq)]
pub struct CriterionFeedback {
    pub criterion_id: String,
    pub accepted: bool,
    /// Reason for revision, when not accepted.
    pub reason: Option<String>,
    pub suggested_revision: Option<String>,
}

/// The critic's review of a contract proposal.
#[derive(Debug, Clone)]
pub struct ContractReview {
    pub contract_id: uuid::Uuid,
    /// Overall approval.
    pub approved: bool,
    /// Per-criterion feedback.
    pub feedback: Vec<CriterionFeedback>,
    /// Current revision round (1-based).
    pub round: u8,
    /// Maximum allowed rounds.
    pub max_rounds: u8,
}

impl ContractReview {
    /// An approval carries no feedback.
    pub fn approve(contract_id: uuid::Uuid, round: u8) -> (r: ContractReview)
        ensures
            r.contract_id == contract_id,
            r.approved,
            r.feedback@.len() == 0,
            r.round == round,
            r.max_rounds == MAX_REVISION_ROUNDS,
    {
        ContractReview { contract_id, approved: true, feedback: Vec::new(), round, max_rounds: MAX_REVISION_ROUNDS }
    }

    /// A request for revision carries the per-criterion feedback.
    pub fn revise(contract_id: uuid::Uuid, feedback: Vec<CriterionFeedback>, round: u8) -> (r: ContractReview)
        ensures
            r.contract_id == contract_id,
            !r.approved,
            r.feedback@ == feedback@,
            r.round == round,
            r.max_rounds == MAX_REVISION_ROUNDS,
    {
        ContractReview { contract_id, approved: false, feedback, round, max_rounds: MAX_REVISION_ROUNDS }
    }
}

/// Maturity tier of an approved contract.
#[derive(Debug, Clone, Copy, PartialEq, Eq, Structural)]
pub enum ContractTier {
    /// Initial approval; not yet validated by execution.
    Candidate,
    /// Promoted after task evaluation passes.
    Canonical,
}

} // verus!
