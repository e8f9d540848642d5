use arkavo_protocol::sequence_error::{ErrorPolicy, SequenceIntegrityError};

#[test]
fn storage_failure_blocks_high_consequence_actions() {
    let err = SequenceIntegrityError::StorageFailure { source: "sqlite".into() };
    assert_eq!(err.policy(), ErrorPolicy::BlockHighConsequence);
}

#[test]
fn tracking_timeout_continues_with_logging() {
    let err = SequenceIntegrityError::TrackingTimeout { action: "read_file".into() };
    assert_eq!(err.policy(), ErrorPolicy::ContinueWithLogging);
}

#[test]
fn taint_bridge_unavailable_blocks_high_consequence() {
    let err = SequenceIntegrityError::TaintBridgeUnavailable;
    assert_eq!(err.policy(), ErrorPolicy::BlockHighConsequence);
}

#[test]
fn ledger_corruption_blocks_all_actions() {
    let err = SequenceIntegrityError::LedgerCorrupted { detail: "checksum mismatch".into() };
    assert_eq!(err.policy(), ErrorPolicy::BlockAll);
}

#[test]
fn storage_failure_is_recoverable() {
    let err = SequenceIntegrityError::StorageFailure { source: "sqlite".into() };
    assert!(err.can_recover());
}

#[test]
fn ledger_corruption_is_not_recoverable() {
    let err = SequenceIntegrityError::LedgerCorrupted { detail: "data loss".into() };
    assert!(!err.can_recover());
}

#[test]
fn display_includes_error_context() {
    let err = SequenceIntegrityError::StorageFailure { source: "sqlite".into() };
    let msg = err.to_string();
    assert!(msg.contains("sqlite"));
}

#[test]
fn cross_agent_bridge_unavailable_continues_local_tracking() {
    let err = SequenceIntegrityError::TaintBridgeUnavailable;
    assert!(err.can_recover());
}
