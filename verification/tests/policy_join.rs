use arkavo_protocol::data_classification::SensitivityLevel;
use arkavo_protocol::policy_join::{PolicySet, UNKNOWN_VALUE};
use arkavo_protocol::taxonomy::{RawAttributeDefinition, RawLabel, TaxonomyDocument, TaxonomyMap, Unentitled};

const PROJECT: &str = "https://attr.arkavo.com/attr/project";

/// A map that binds `project` as a fail-closed provenance attribute kept off the TDF.
fn provenance_map() -> TaxonomyMap {
    let doc = TaxonomyDocument {
        version: "1.1.0".to_string(),
        namespace: "https://attr.arkavo.com/".to_string(),
        attribute_definitions: vec![
            RawAttributeDefinition {
                fqn: "https://attr.arkavo.com/attr/clearance".to_string(),
                rule: "hierarchy".to_string(),
                order: vec![
                    "restricted".to_string(),
                    "confidential".to_string(),
                    "internal".to_string(),
                    "public".to_string(),
                ],
                on_tdf: true,
            },
            RawAttributeDefinition {
                fqn: PROJECT.to_string(),
                rule: "allOf".to_string(),
                order: Vec::new(),
                on_tdf: false,
            },
        ],
        labels: vec![RawLabel {
            name: "pii".to_string(),
            category: "Pii".to_string(),
            sensitivity: "Confidential".to_string(),
            requires: Vec::new(),
            wrap_attributes: Vec::new(),
            unentitled: Unentitled::Redact,
            never_release: false,
        }],
        provenance_attributes: vec![PROJECT.to_string()],
        missing_provenance: "unknown".to_string(),
    };
    TaxonomyMap::from_document(doc).expect("provenance map")
}

fn asserted(map: &TaxonomyMap, level: SensitivityLevel, project: Option<&str>) -> PolicySet {
    let facets = project.map(|p| vec![(PROJECT.to_string(), p.to_string())]).unwrap_or_default();
    PolicySet::from_asserted(map, level, facets)
}

fn projects(p: &PolicySet) -> Option<Vec<String>> {
    p.attributes.get(PROJECT).map(|s| s.to_vec())
}

#[test]
fn embedded_v1_omits_project_when_the_facet_is_not_asserted() {
    let map = TaxonomyMap::v1();
    let item = PolicySet::from_asserted(&map, SensitivityLevel::Confidential, Vec::new());

    assert!(item.attributes.get(PROJECT).is_none());
    assert!(!item.blocks_partitioned_adapter(&map));
    let uris = item.wrap_uris(&map);
    assert!(uris.iter().all(|u| !u.contains("/attr/project/")));
}

#[test]
fn v1_still_stamps_project_when_a_connector_asserts_it() {
    let map = TaxonomyMap::v1();
    let item = PolicySet::from_asserted(
        &map,
        SensitivityLevel::Confidential,
        vec![(PROJECT.to_string(), "matter-17".to_string())],
    );

    assert_eq!(projects(&item), Some(vec!["matter-17".to_string()]));
    assert!(item.wrap_uris(&map).iter().all(|u| !u.contains("/attr/project/")));
}

#[test]
fn join_takes_the_clearance_high_water_mark() {
    let map = provenance_map();
    let a = asserted(&map, SensitivityLevel::Internal, Some("teva"));
    let b = asserted(&map, SensitivityLevel::Confidential, Some("endo"));

    let joined = PolicySet::join(&map, &[&a, &b]);

    assert_eq!(joined.clearance, SensitivityLevel::Confidential);
}

#[test]
fn join_unions_conjunctive_project_values() {
    let map = provenance_map();
    let a = asserted(&map, SensitivityLevel::Confidential, Some("teva"));
    let b = asserted(&map, SensitivityLevel::Confidential, Some("endo"));

    let joined = PolicySet::join(&map, &[&a, &b]);

    assert_eq!(projects(&joined), Some(vec!["endo".to_string(), "teva".to_string()]));
    let uris = joined.wrap_uris(&map);
    assert!(uris.iter().any(|u| u.ends_with("/attr/clearance/value/confidential")));
    assert!(uris.iter().all(|u| !u.contains("/attr/project/")), "corpus organization must not be written to the TDF");
}

#[test]
fn project_stays_off_the_tdf() {
    let map = provenance_map();
    assert!(map.off_tdf_fqns().contains(PROJECT));
    let item = asserted(&map, SensitivityLevel::Confidential, Some("mnk"));
    assert!(item.wrap_uris(&map).iter().all(|u| !u.contains("/attr/project/")));
}

#[test]
fn collection_names_slug_to_attribute_values() {
    let map = provenance_map();
    let item = asserted(&map, SensitivityLevel::Confidential, Some("Endo Documents"));

    assert_eq!(projects(&item), Some(vec!["endo-documents".to_string()]));
}

#[test]
fn an_empty_join_is_restricted_not_public() {
    let map = provenance_map();
    let joined = PolicySet::join(&map, &[]);

    assert_eq!(joined.clearance, SensitivityLevel::Restricted);
}

#[test]
fn sentinel_labels_cannot_smuggle_a_project_value() {
    let map = provenance_map();
    let from_labels_only = PolicySet::from_asserted(&map, SensitivityLevel::Confidential, Vec::new());

    assert_eq!(projects(&from_labels_only), Some(vec![UNKNOWN_VALUE.to_string()]));
    assert!(from_labels_only.blocks_partitioned_adapter(&map));
}

#[test]
fn slugs_collapse_separators_and_fall_back_to_unknown() {
    let map = provenance_map();
    let messy = asserted(&map, SensitivityLevel::Public, Some("  --Teva//Allergan!!  "));
    assert_eq!(projects(&messy), Some(vec!["teva-allergan".to_string()]));
    let symbols = asserted(&map, SensitivityLevel::Public, Some("!!!"));
    assert_eq!(projects(&symbols), Some(vec![UNKNOWN_VALUE.to_string()]));
    let blank = asserted(&map, SensitivityLevel::Public, Some("   "));
    assert_eq!(projects(&blank), Some(vec![UNKNOWN_VALUE.to_string()]));
}

#[test]
fn public_clearance_stamps_the_public_value() {
    let map = provenance_map();
    let item = asserted(&map, SensitivityLevel::Public, Some("x"));
    let uris = item.wrap_uris(&map);
    assert_eq!(uris, vec!["https://attr.arkavo.com/attr/clearance/value/public".to_string()]);
}
