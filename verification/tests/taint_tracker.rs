use std::sync::Arc;

use arkavo_protocol::data_classification::{ClassifiedDatum, DataCategory, SensitivityLevel};
use arkavo_protocol::taint::{SourceKind, TaintSet, TaintSource, Transformation};
use arkavo_protocol::taint_inference::ClassificationInferencer;
use arkavo_protocol::taint_tracker::{DataTaintTracker, ModelCeilings, DEFAULT_FLOOR};

fn tool(name: &str) -> TaintSource {
    TaintSource::new(SourceKind::ToolResult, name)
}

/// Builds a credential-shaped string at run time.
fn fake_api_key() -> String {
    let prefix: String = ['s', 'k'].iter().collect();
    let body: String = (0..24).map(|i| char::from(b'a' + ((i * 7 + 3) % 26) as u8)).collect();
    format!("{prefix}-{body}")
}

fn empty_params() -> serde_json::Value {
    serde_json::Value::Object(serde_json::Map::new())
}

#[test]
fn ingestion_labels_even_benign_text() {
    let tracker = DataTaintTracker::new("s1").unwrap();

    let set = tracker.ingest(&tool("read_file"), "the quick brown fox");

    assert!(!set.is_empty());
    assert_eq!(set.sensitivity(), SensitivityLevel::Internal);
}

#[test]
fn ingestion_raises_to_what_the_detector_found() {
    let tracker = DataTaintTracker::new("s1").unwrap();

    let set = tracker.ingest(&tool("read_file"), &format!("key {}", fake_api_key()));

    assert_eq!(set.sensitivity(), SensitivityLevel::Restricted);
    assert!(set.contains_category(DataCategory::Credentials));
}

#[test]
fn a_declared_public_source_still_carries_a_label() {
    let tracker = DataTaintTracker::new("s1").unwrap();
    let source = tool("fetch_docs").declared(SensitivityLevel::Public);

    let set = tracker.ingest(&source, "public documentation");

    assert_eq!(set.sensitivity(), SensitivityLevel::Public);
    assert_eq!(set.len(), 1);
}

#[test]
fn a_declared_public_source_cannot_hide_a_credential_in_its_content() {
    let tracker = DataTaintTracker::new("s1").unwrap();
    let source = tool("fetch_docs").declared(SensitivityLevel::Public);

    let set = tracker.ingest(&source, &format!("example: {}", fake_api_key()));

    assert_eq!(set.sensitivity(), SensitivityLevel::Restricted);
}

#[test]
fn agent_ingestion_inherits_upstream_labels() {
    let tracker = DataTaintTracker::new("s1").unwrap();
    let upstream = tracker.ingest(&tool("vault"), &fake_api_key());
    let peer = TaintSource::new(SourceKind::A2aReceive, "did:key:z6Mk");

    let set = tracker.ingest_from_agent(&peer, "here is the summary", &upstream);

    assert_eq!(set.sensitivity(), SensitivityLevel::Restricted);
    assert!(set.contains_category(DataCategory::Credentials));
}

#[test]
fn transformation_keeps_the_input_classification() {
    let tracker = DataTaintTracker::new("s1").unwrap();
    let input = tracker.ingest(&tool("vault"), &fake_api_key());

    let encoded = tracker.transform(&[&input], Transformation::Encode, "base64");

    assert_eq!(encoded.sensitivity(), SensitivityLevel::Restricted);
}

#[test]
fn combining_tainted_and_public_data_keeps_the_taint() {
    let tracker = DataTaintTracker::new("s1").unwrap();
    let secret = tracker.ingest(&tool("vault"), &fake_api_key());
    let public = tracker.ingest(&tool("docs").declared(SensitivityLevel::Public), "hello world");

    let merged = tracker.transform(&[&secret, &public], Transformation::Merge, "concat");

    assert_eq!(merged.sensitivity(), SensitivityLevel::Restricted);
}

#[test]
fn inference_output_inherits_input_taint() {
    let tracker = DataTaintTracker::new("s1").unwrap();
    let input = tracker.ingest(&tool("vault"), &fake_api_key());

    let output = tracker.after_inference(&[&input], "gemma-e2b");

    assert_eq!(output.sensitivity(), SensitivityLevel::Restricted);
}

#[test]
fn inference_output_carries_the_model_ceiling_on_clean_input() {
    let tracker = DataTaintTracker::new("s1").unwrap().with_model_ceilings(
        ModelCeilings::new(SensitivityLevel::Public).with("internal-tuned", SensitivityLevel::Confidential),
    );

    let output = tracker.after_inference(&[], "internal-tuned");

    assert_eq!(output.sensitivity(), SensitivityLevel::Confidential);
}

#[test]
fn an_unconfigured_model_gets_the_conservative_ceiling() {
    let tracker = DataTaintTracker::new("s1").unwrap();

    let output = tracker.after_inference(&[], "never-configured");

    assert_eq!(output.sensitivity(), DEFAULT_FLOOR);
}

#[test]
fn recorded_calls_inherit_taint_from_their_inputs() {
    let mut tracker = DataTaintTracker::new("s1").unwrap();
    let secret = tracker.ingest(&tool("vault"), &fake_api_key());
    let read = tracker.record_call("read_vault", &empty_params(), &[], &secret).expect("root call");

    let mut params = serde_json::Map::new();
    params.insert("url".to_string(), serde_json::Value::String("https://x".to_string()));
    let post = tracker
        .record_call("http_post", &serde_json::Value::Object(params), &[read], &TaintSet::new())
        .expect("known input");

    let graph = tracker.graph();
    let node = graph.node(&post).expect("node");
    assert_eq!(node.taint.sensitivity(), SensitivityLevel::Restricted);
}

#[test]
fn ledger_entries_mirror_the_graph() {
    let mut tracker = DataTaintTracker::new("s1").unwrap();
    let secret = tracker.ingest(&tool("vault"), &fake_api_key());
    tracker.record_call("read_vault", &empty_params(), &[], &secret).expect("root call");

    let entries = tracker.ledger_entries();

    assert_eq!(entries.len(), 1);
    assert_eq!(entries[0].tool_name, "read_vault");
    assert_eq!(entries[0].taint.sensitivity, "restricted");
}

#[test]
fn a_call_naming_an_unknown_node_is_refused() {
    let mut tracker = DataTaintTracker::new("s1").unwrap();
    let result = tracker.record_call("post", &empty_params(), &["n9".to_string()], &TaintSet::new());
    assert!(result.is_err());
    assert!(tracker.graph().is_empty());
}

struct SilentInferencer;

impl ClassificationInferencer for SilentInferencer {
    fn name(&self) -> &'static str {
        "silent"
    }
    fn version(&self) -> &'static str {
        "0"
    }
    fn infer(&self, _text: &str) -> Vec<ClassifiedDatum> {
        Vec::new()
    }
}

#[test]
fn a_detector_that_finds_nothing_cannot_clear_the_floor() {
    let tracker = DataTaintTracker::new("s1").unwrap().with_inferencer(Arc::new(SilentInferencer));

    let set = tracker.ingest(&tool("read_file"), &fake_api_key());

    assert_eq!(tracker.inferencer_name(), "silent");
    assert_eq!(set.sensitivity(), DEFAULT_FLOOR);
}

#[test]
fn the_floor_can_be_raised() {
    let tracker = DataTaintTracker::new("s1").unwrap().with_floor(SensitivityLevel::Confidential);
    let set = tracker.ingest(&tool("read_file"), "plain words");
    assert_eq!(set.sensitivity(), SensitivityLevel::Confidential);
    assert_eq!(tracker.session_id(), "s1");
}

#[test]
fn inference_on_no_input_is_labelled_by_the_model() {
    let tracker = DataTaintTracker::new("s1").unwrap();

    let output = tracker.after_inference(&[], "gemma-e2b");

    assert_eq!(output.source_ids(), vec!["model:gemma-e2b".to_string()]);
    assert!(!output.contains_category(DataCategory::Pii));
}

#[test]
fn inference_keeps_input_categories_and_sources() {
    let tracker = DataTaintTracker::new("s1").unwrap();
    let input = TaintSet::from_label(arkavo_protocol::taint::TaintLabel::new(
        "tool:crm",
        &[DataCategory::Pii],
        SensitivityLevel::Confidential,
    ));

    let output = tracker.after_inference(&[&input], "gemma-e2b");

    assert_eq!(output.source_ids(), vec!["tool:crm".to_string()]);
    assert!(output.contains_category(DataCategory::Pii));
    assert_eq!(output.sensitivity(), std::cmp::max(SensitivityLevel::Confidential, DEFAULT_FLOOR));
}
