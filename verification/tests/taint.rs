use arkavo_protocol::data_classification::{ClassifiedDatum, DataCategory, DatumType, SensitivityLevel};
use arkavo_protocol::taint::{
    ProvenanceHop, SourceKind, TaintLabel, TaintSet, TaintSource, Transformation, AGGREGATE_SOURCE_ID,
    MAX_LABELS, MAX_PROVENANCE_HOPS,
};

fn label(source: &str, category: DataCategory, level: SensitivityLevel) -> TaintLabel {
    TaintLabel::new(source, &[category], level)
}

#[test]
fn empty_set_is_public() {
    let set = TaintSet::new();
    assert!(set.is_empty());
    assert_eq!(set.sensitivity(), SensitivityLevel::Public);
}

#[test]
fn union_takes_the_highest_sensitivity() {
    let low = TaintSet::from_label(label("file:notes", DataCategory::Internal, SensitivityLevel::Internal));
    let high = TaintSet::from_label(label("tool:vault", DataCategory::Credentials, SensitivityLevel::Restricted));

    let merged = low.union(&high);

    assert_eq!(merged.sensitivity(), SensitivityLevel::Restricted);
}

#[test]
fn union_is_commutative_in_sensitivity_and_categories() {
    let a = TaintSet::from_label(label("file:a", DataCategory::Pii, SensitivityLevel::Internal));
    let b = TaintSet::from_label(label("file:b", DataCategory::Financial, SensitivityLevel::Confidential));

    let ab = a.clone().union(&b);
    let ba = b.union(&a);

    assert_eq!(ab.sensitivity(), ba.sensitivity());
    assert_eq!(ab.categories(), ba.categories());
}

#[test]
fn union_never_lowers_an_existing_label() {
    let mut set = TaintSet::from_label(label("tool:vault", DataCategory::Credentials, SensitivityLevel::Restricted));
    let downgrade = TaintSet::from_label(label("tool:vault", DataCategory::Public, SensitivityLevel::Public));

    set.merge(&downgrade);

    assert_eq!(set.sensitivity(), SensitivityLevel::Restricted);
    assert!(set.contains_category(DataCategory::Credentials));
}

#[test]
fn union_accumulates_categories_for_one_source() {
    let mut set = TaintSet::from_label(label("tool:crm", DataCategory::Pii, SensitivityLevel::Internal));
    set.merge(&TaintSet::from_label(label("tool:crm", DataCategory::Financial, SensitivityLevel::Internal)));

    assert_eq!(set.len(), 1);
    assert!(set.contains_category(DataCategory::Pii));
    assert!(set.contains_category(DataCategory::Financial));
}

#[test]
fn transformation_records_a_hop_without_changing_sensitivity() {
    let set = TaintSet::from_label(label("file:secrets", DataCategory::Credentials, SensitivityLevel::Restricted));

    let encoded = set.transformed(Transformation::Encode, "base64");

    assert_eq!(encoded.sensitivity(), SensitivityLevel::Restricted);
    let label = encoded.label_for("file:secrets").expect("label survives");
    assert_eq!(label.hops.len(), 1);
    assert_eq!(label.hops[0].transformation, Transformation::Encode);
    assert_eq!(label.hops[0].detail, "base64");
}

#[test]
fn transformation_chains_accumulate_in_order() {
    let set = TaintSet::from_label(label("file:secrets", DataCategory::Internal, SensitivityLevel::Internal))
        .transformed(Transformation::Encode, "base64")
        .transformed(Transformation::Summarize, "model");

    let hops = &set.label_for("file:secrets").expect("label").hops;
    assert_eq!(hops[0].transformation, Transformation::Encode);
    assert_eq!(hops[1].transformation, Transformation::Summarize);
}

#[test]
fn provenance_chain_is_bounded_and_reports_truncation() {
    let mut set = TaintSet::from_label(label("file:loop", DataCategory::Internal, SensitivityLevel::Internal));
    for i in 0..(MAX_PROVENANCE_HOPS + 10) {
        set = set.transformed(Transformation::Encode, &format!("codec-{i}"));
    }

    let label = set.label_for("file:loop").expect("label");
    assert_eq!(label.hops.len(), MAX_PROVENANCE_HOPS);
    assert_eq!(label.truncated_hops, 10);
    assert_eq!(set.sensitivity(), SensitivityLevel::Internal);
}

#[test]
fn label_count_is_bounded_without_losing_sensitivity() {
    let mut set = TaintSet::new();
    for i in 0..(MAX_LABELS + 5) {
        set.insert(label(&format!("tool:t{i}"), DataCategory::Internal, SensitivityLevel::Internal));
    }
    set.insert(label("tool:overflow", DataCategory::Credentials, SensitivityLevel::Restricted));

    assert!(set.len() <= MAX_LABELS + 1);
    assert_eq!(set.sensitivity(), SensitivityLevel::Restricted);
    assert!(set.contains_category(DataCategory::Credentials));
    assert!(set.label_for(AGGREGATE_SOURCE_ID).is_some());
}

#[test]
fn raising_to_a_ceiling_labels_an_otherwise_clean_set() {
    let set = TaintSet::new().raised_to("model:local", SensitivityLevel::Confidential);

    assert_eq!(set.sensitivity(), SensitivityLevel::Confidential);
    assert!(set.label_for("model:local").is_some());
}

#[test]
fn raising_to_a_lower_ceiling_leaves_labels_alone() {
    let set = TaintSet::from_label(label("tool:vault", DataCategory::Credentials, SensitivityLevel::Restricted))
        .raised_to("model:local", SensitivityLevel::Internal);

    assert_eq!(set.sensitivity(), SensitivityLevel::Restricted);
}

#[test]
fn classifications_build_a_label_at_the_highest_finding() {
    let found = vec![
        ClassifiedDatum { datum_type: DatumType::Email, position: (0, 5), matched_text: "a@b.c".into() },
        ClassifiedDatum { datum_type: DatumType::ApiKey, position: (6, 15), matched_text: "sk-abc123".into() },
    ];

    let label = TaintLabel::from_classifications("tool:read", &found, SensitivityLevel::Public);

    assert_eq!(label.sensitivity, SensitivityLevel::Restricted);
    assert!(label.categories.contains(&DataCategory::Pii));
    assert!(label.categories.contains(&DataCategory::Credentials));
}

#[test]
fn a_clean_scan_still_honors_the_conservative_floor() {
    let label = TaintLabel::from_classifications("tool:read", &[], SensitivityLevel::Internal);

    assert_eq!(label.sensitivity, SensitivityLevel::Internal);
    assert!(label.categories.is_empty());
}

#[test]
fn source_ids_distinguish_kinds_with_the_same_name() {
    let tool = TaintSource::new(SourceKind::ToolResult, "report");
    let file = TaintSource::new(SourceKind::FileRead, "report");

    assert_ne!(tool.source_id(), file.source_id());
}

#[test]
fn source_id_joins_kind_and_name() {
    let tool = TaintSource::new(SourceKind::ToolResult, "report");
    assert_eq!(tool.source_id(), format!("{}:report", SourceKind::ToolResult.as_str()));
}

#[test]
fn a_hop_keeps_its_transformation_and_detail() {
    let labelled = label("a2a:did:key:z6Mk", DataCategory::Pii, SensitivityLevel::Confidential)
        .with_hop(ProvenanceHop::new(Transformation::Summarize, "gemma"));
    let set = TaintSet::from_label(labelled);
    let back = set.label_for("a2a:did:key:z6Mk").expect("label");
    assert_eq!(back.hops.len(), 1);
    assert_eq!(back.hops[0].detail, "gemma");
    assert_eq!(set.source_ids(), vec!["a2a:did:key:z6Mk".to_string()]);
}

#[test]
fn labels_stay_ordered_by_source() {
    let mut set = TaintSet::new();
    set.insert(label("b", DataCategory::Pii, SensitivityLevel::Internal));
    set.insert(label("a", DataCategory::Pii, SensitivityLevel::Internal));
    set.insert(label("c", DataCategory::Pii, SensitivityLevel::Internal));
    assert_eq!(set.source_ids(), vec!["a".to_string(), "b".to_string(), "c".to_string()]);
}

#[test]
fn ledger_projection_carries_sensitivity_categories_and_provenance() {
    let set = TaintSet::from_label(label("file:/etc/creds", DataCategory::Credentials, SensitivityLevel::Restricted))
        .transformed(Transformation::Encode, "base64");

    let record = arkavo_protocol::taint_ledger::TaintRecord::from_taint_set(&set);

    assert_eq!(record.sensitivity, "restricted");
    assert_eq!(record.categories, vec!["credentials".to_string()]);
    assert_eq!(record.sources, vec!["file:/etc/creds".to_string()]);
    assert_eq!(record.provenance, vec!["file:/etc/creds|encode|base64".to_string()]);
    assert_eq!(record.truncated_hops, 0);
}

#[test]
fn ledger_projection_reports_truncated_provenance() {
    let mut set = TaintSet::from_label(label("file:loop", DataCategory::Internal, SensitivityLevel::Internal));
    for i in 0..(MAX_PROVENANCE_HOPS + 3) {
        set = set.transformed(Transformation::Encode, &format!("codec-{i}"));
    }

    let record = arkavo_protocol::taint_ledger::TaintRecord::from_taint_set(&set);

    assert_eq!(record.truncated_hops, 3);
}

#[test]
fn inserting_never_weakens_a_held_label() {
    let mut set = TaintSet::from_label(label("tool:vault", DataCategory::Credentials, SensitivityLevel::Restricted));
    set.insert(label("tool:vault", DataCategory::Public, SensitivityLevel::Public));
    set.insert(label("tool:crm", DataCategory::Pii, SensitivityLevel::Internal));

    let vault = set.label_for("tool:vault").expect("still held");
    assert_eq!(vault.sensitivity, SensitivityLevel::Restricted);
    assert!(vault.categories.contains(&DataCategory::Credentials));
    assert!(vault.categories.contains(&DataCategory::Public));
}
