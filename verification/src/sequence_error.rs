//! Failures of sequence-integrity tracking, and what each one demands.

use vstd::prelude::*;

use crate::strings::concat2;

verus! {

#[derive(Debug)]
pub enum SequenceIntegrityError {
    StorageFailure { source: String },
    TrackingTimeout { action: String },
    TaintBridgeUnavailable,
    LedgerCorrupted { detail: String },
}

/// What the caller must do after a failure.
#[derive(Debug, PartialEq, Eq, Structural, Clone, Copy)]
pub enum ErrorPolicy {
    ContinueWithLogging,
    BlockHighConsequence,
    BlockAll,
}

pub open spec fn policy_spec(e: SequenceIntegrityError) -> ErrorPolicy {
    match e {
        SequenceIntegrityError::TrackingTimeout { .. } => ErrorPolicy::ContinueWithLogging,
        SequenceIntegrityError::StorageFailure { .. } => ErrorPolicy::BlockHighConsequence,
        SequenceIntegrityError::TaintBridgeUnavailable => ErrorPolicy::BlockHighConsequence,
        SequenceIntegrityError::LedgerCorrupted { .. } => ErrorPolicy::BlockAll,
    }
}

pub open spec fn error_text(e: SequenceIntegrityError) -> Seq<char> {
    match e {
        SequenceIntegrityError::StorageFailure { source } => "storage failure: "@ + source@,
        SequenceIntegrityError::TrackingTimeout { action } => "tracking timeout on action: "@ + action@,
        SequenceIntegrityError::TaintBridgeUnavailable => "taint bridge unavailable"@,
        SequenceIntegrityError::LedgerCorrupted { detail } => "ledger corrupted: "@ + detail@,
    }
}

impl SequenceIntegrityError {
    pub fn policy(&self) -> (p: ErrorPolicy)
        ensures
            p == policy_spec(*self),
    {
        match self {
            SequenceIntegrityError::TrackingTimeout { .. } => ErrorPolicy::ContinueWithLogging,
            SequenceIntegrityError::StorageFailure { .. } => ErrorPolicy::BlockHighConsequence,
            SequenceIntegrityError::TaintBridgeUnavailable => ErrorPolicy::BlockHighConsequence,
            SequenceIntegrityError::LedgerCorrupted { .. } => ErrorPolicy::BlockAll,
        }
    }

    /// Every failure but a corrupted ledger can be recovered from.
    pub fn can_recover(&self) -> (r: bool)
        ensures
            r == !(*self is LedgerCorrupted),
    {
        match self {
            SequenceIntegrityError::LedgerCorrupted { .. } => false,
            _ => true,
        }
    }

    /// Human-readable text of the failure, naming its context.
    pub fn to_string(&self) -> (s: String)
        ensures
            s@ == error_text(*self),
    {
        match self {
            SequenceIntegrityError::StorageFailure { source } => concat2("storage failure: ", source.as_str()),
            SequenceIntegrityError::TrackingTimeout { action } => concat2(
                "tracking timeout on action: ",
                action.as_str(),
            ),
            SequenceIntegrityError::TaintBridgeUnavailable => crate::strings::owned("taint bridge unavailable"),
            SequenceIntegrityError::LedgerCorrupted { detail } => concat2("ledger corrupted: ", detail.as_str()),
        }
    }
}

/// Only an unrecoverable failure blocks every action, and every failure that
/// blocks every action is unrecoverable.
pub proof fn lemma_block_all_iff_unrecoverable(e: SequenceIntegrityError)
    ensures
        (policy_spec(e) == ErrorPolicy::BlockAll) == (e is LedgerCorrupted),
{
}

} // verus!
