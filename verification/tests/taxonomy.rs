use arkavo_protocol::data_classification::{DataCategory, DatumType, SensitivityLevel};
use arkavo_protocol::taxonomy::{
    canonical_definition_fqn, canonical_value_fqn, AttributeRequirement, RawAttributeDefinition, RawLabel,
    RawRequirement, TaxonomyDocument, TaxonomyError, TaxonomyMap, Unentitled,
};

fn raw_label(name: &str, category: &str, sensitivity: &str, unentitled: Unentitled, never_release: bool) -> RawLabel {
    RawLabel {
        name: name.to_string(),
        category: category.to_string(),
        sensitivity: sensitivity.to_string(),
        requires: Vec::new(),
        wrap_attributes: Vec::new(),
        unentitled,
        never_release,
    }
}

fn document(labels: Vec<RawLabel>) -> TaxonomyDocument {
    TaxonomyDocument {
        version: "9".to_string(),
        namespace: "https://x/".to_string(),
        attribute_definitions: Vec::new(),
        labels,
        provenance_attributes: Vec::new(),
        missing_provenance: String::new(),
    }
}

#[test]
fn embedded_v1_map_loads() {
    let map = TaxonomyMap::v1();

    assert_eq!(map.version(), "1.0.0");
    assert_eq!(map.namespace(), "https://attr.arkavo.com/");
}

#[test]
fn wrap_emits_platform_value_fqns() {
    let req = AttributeRequirement::new("https://attr.arkavo.com/clearance", "secret");
    assert_eq!(req.fqn, "https://attr.arkavo.com/attr/clearance");
    assert_eq!(req.as_attribute_uri(), "https://attr.arkavo.com/attr/clearance/value/secret");
    assert_eq!(
        canonical_value_fqn("https://attr.arkavo.com/attr/project", "teva-allergan"),
        "https://attr.arkavo.com/attr/project/value/teva-allergan"
    );
}

#[test]
fn credentials_never_release() {
    let map = TaxonomyMap::v1();

    assert!(map.never_release(&[DataCategory::Credentials]));
    assert!(!map.never_release(&[DataCategory::Pii, DataCategory::Internal]));
}

#[test]
fn pii_floor_matches_the_detector_default() {
    let map = TaxonomyMap::v1();
    let pii = map.policy_for(DataCategory::Pii).expect("pii label");

    assert_eq!(pii.sensitivity, DatumType::Email.default_sensitivity());
}

#[test]
fn financial_requirements_are_conjunctive() {
    let map = TaxonomyMap::v1();

    let reqs = map.requirements_for(&[DataCategory::Financial]);

    assert!(reqs.contains(&AttributeRequirement::new("https://attr.arkavo.com/attr/clearance", "confidential")));
    assert!(reqs.contains(&AttributeRequirement::new("https://attr.arkavo.com/attr/department", "finance")));
}

#[test]
fn requirements_union_rather_than_dominate() {
    let map = TaxonomyMap::v1();

    let reqs = map.requirements_for(&[DataCategory::Healthcare, DataCategory::Financial]);

    assert!(reqs.contains(&AttributeRequirement::new("https://attr.arkavo.com/attr/clearance", "restricted")));
    assert!(reqs.contains(&AttributeRequirement::new("https://attr.arkavo.com/attr/department", "finance")));
}

#[test]
fn public_content_carries_no_requirement() {
    let map = TaxonomyMap::v1();

    assert!(map.requirements_for(&[DataCategory::Public]).is_empty());
}

#[test]
fn a_map_with_no_labels_is_rejected() {
    assert_eq!(TaxonomyMap::from_document(document(Vec::new())).unwrap_err(), TaxonomyError::NoLabels);
}

#[test]
fn a_duplicate_category_is_rejected() {
    let doc = document(vec![
        raw_label("a", "Credentials", "Restricted", Unentitled::Block, true),
        raw_label("b", "Credentials", "Public", Unentitled::Redact, false),
    ]);

    assert!(matches!(TaxonomyMap::from_document(doc).unwrap_err(), TaxonomyError::DuplicateCategory(_)));
}

#[test]
fn an_unknown_sensitivity_reports_itself_as_one() {
    let doc = document(vec![raw_label("a", "Pii", "Nonsense", Unentitled::Block, false)]);

    assert!(matches!(TaxonomyMap::from_document(doc).unwrap_err(), TaxonomyError::UnknownSensitivity(_, _)));
}

#[test]
fn sensitivity_alone_yields_a_clearance_requirement() {
    let map = TaxonomyMap::v1();

    let internal = map.clearance_requirement(SensitivityLevel::Internal).expect("internal needs clearance");

    assert_eq!(internal.fqn, "https://attr.arkavo.com/attr/clearance");
    assert_eq!(internal.value, "internal");
    assert_eq!(internal.as_attribute_uri(), "https://attr.arkavo.com/attr/clearance/value/internal");
    assert_eq!(
        map.clearance_requirement(SensitivityLevel::Restricted).map(|r| r.value),
        Some("restricted".to_string())
    );
    assert!(map.clearance_requirement(SensitivityLevel::Public).is_none());
}

#[test]
fn an_unknown_category_is_rejected() {
    let doc = document(vec![raw_label("x", "Nonsense", "Public", Unentitled::Block, false)]);

    assert!(matches!(TaxonomyMap::from_document(doc).unwrap_err(), TaxonomyError::UnknownCategory(_, _)));
}

#[test]
fn embedded_v1_does_not_bind_project_as_provenance() {
    let map = TaxonomyMap::v1();

    assert!(map.provenance_fqns().is_empty());
    assert!(!map.missing_provenance_is_unknown());
    assert!(map.conjunctive_fqns().contains("https://attr.arkavo.com/attr/project"));
}

#[test]
fn the_first_fault_of_a_document_is_the_one_reported() {
    let doc = document(vec![
        raw_label("a", "Pii", "Public", Unentitled::Block, false),
        raw_label("b", "Pii", "Nonsense", Unentitled::Block, false),
    ]);
    assert_eq!(
        TaxonomyMap::from_document(doc).unwrap_err(),
        TaxonomyError::UnknownSensitivity("b".to_string(), "Nonsense".to_string())
    );
    let doc = document(vec![raw_label("x", "Bogus", "Bogus", Unentitled::Block, false)]);
    assert_eq!(
        TaxonomyMap::from_document(doc).unwrap_err(),
        TaxonomyError::UnknownCategory("x".to_string(), "Bogus".to_string())
    );
}

#[test]
fn a_loaded_document_keeps_its_definitions() {
    let mut label = raw_label("p", "Pii", "Confidential", Unentitled::Redact, false);
    label.requires.push(RawRequirement { fqn: " https://x.com/clearance/ ".to_string(), value: "c".to_string() });
    let doc = TaxonomyDocument {
        version: "2".to_string(),
        namespace: "https://x.com/".to_string(),
        attribute_definitions: vec![
            RawAttributeDefinition {
                fqn: "https://x.com/attr/clearance".to_string(),
                rule: "hierarchy".to_string(),
                order: vec!["public".to_string(), "confidential".to_string()],
                on_tdf: true,
            },
            RawAttributeDefinition {
                fqn: "https://x.com/project".to_string(),
                rule: "anyOf".to_string(),
                order: Vec::new(),
                on_tdf: false,
            },
        ],
        labels: vec![label],
        provenance_attributes: vec!["https://x.com/project".to_string(), String::new()],
        missing_provenance: "unknown".to_string(),
    };

    let map = TaxonomyMap::from_document(doc).expect("valid document");

    assert!(map.conjunctive_fqns().contains("https://x.com/attr/project"));
    assert!(map.off_tdf_fqns().contains("https://x.com/attr/project"));
    assert_eq!(map.provenance_fqns().len(), 1);
    assert!(map.missing_provenance_is_unknown());
    assert_eq!(map.clearance().expect("clearance").value_for(SensitivityLevel::Confidential), Some("confidential"));
    assert_eq!(map.clearance().expect("clearance").value_for(SensitivityLevel::Restricted), None);
    let reqs = map.requirements_for(&[DataCategory::Pii, DataCategory::Healthcare]);
    assert!(reqs.contains(&AttributeRequirement::new("https://x.com/attr/clearance", "c")));
    assert_eq!(reqs.to_vec().len(), 1);
}

#[test]
fn canonical_fqns_insert_the_attr_segment_once() {
    assert_eq!(canonical_definition_fqn("https://a.b/clearance"), "https://a.b/attr/clearance");
    assert_eq!(canonical_definition_fqn("  https://a.b/attr/clearance//  "), "https://a.b/attr/clearance");
    assert_eq!(canonical_definition_fqn("https://a.b/obl/audit"), "https://a.b/obl/audit");
    assert_eq!(canonical_value_fqn("https://a.b/attr/x/value/y", "z"), "https://a.b/attr/x/value/y");
}

#[test]
fn never_release_categories_are_named_in_order() {
    let map = TaxonomyMap::v1();
    assert_eq!(
        map.never_release_categories(&[DataCategory::Pii, DataCategory::Credentials, DataCategory::Credentials]),
        vec![DataCategory::Credentials, DataCategory::Credentials]
    );
    let wraps = map.wrap_attributes_for(&[DataCategory::Internal]);
    assert!(wraps.contains(&AttributeRequirement::new("https://attr.arkavo.com/attr/clearance", "internal")));
}

#[test]
fn canonical_definition_fqns_are_stable() {
    for fqn in ["https://a.b/clearance", "  https://a.b/attr/clearance//  ", "https://a.b/obl/audit", "plain", ""] {
        let once = canonical_definition_fqn(fqn);
        assert_eq!(canonical_definition_fqn(&once), once);
    }
}

#[test]
fn canonical_definition_fqns_name_a_definition_segment() {
    for fqn in ["https://a.b/x//", "https://a.b/attr/x/", "a/b", "https://a.b/obl/y"] {
        let once = canonical_definition_fqn(fqn);
        assert!(!once.ends_with('/'));
        assert!(once.contains("/attr/") || once.contains("/obl/"));
        assert_eq!(canonical_definition_fqn(&once), once);
    }
    assert_eq!(canonical_definition_fqn("https://a.b/x//"), "https://a.b/attr/x");
}
