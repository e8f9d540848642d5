use arkavo_protocol::agent_config::{
    backups_to_remove, config_version, parse_agents_config, update_gate, validate_agent_config,
    UpdateGate,
};
use arkavo_protocol::capabilities::{capabilities_for, infer_capabilities_from_purpose};

#[test]
fn agents_are_read_from_headers_and_fields() {
    let text = "# Agents\npreamble: ignored\n\n## planner\npurpose: Plans work\nmodel:  llama-3 \n  listen: 127.0.0.1:8080\nother: x\n##  auditor  \r\npurpose:reviews: code\n";
    let agents = parse_agents_config(text).expect("always parses");
    assert_eq!(agents.len(), 2);
    assert_eq!(agents[0].name, "planner");
    assert_eq!(agents[0].purpose, "Plans work");
    assert_eq!(agents[0].model, "llama-3");
    assert_eq!(agents[0].listen, "127.0.0.1:8080");
    assert_eq!(agents[1].name, "auditor");
    assert_eq!(agents[1].purpose, "reviews: code");
    assert_eq!(agents[1].model, "");
}

#[test]
fn a_config_without_agents_is_invalid() {
    assert_eq!(validate_agent_config("purpose: orphan\n").unwrap_err(), "No agent configurations found");
    assert_eq!(validate_agent_config("").unwrap_err(), "No agent configurations found");
    assert!(validate_agent_config("## solo").is_ok());
    assert!(parse_agents_config("##no-space").unwrap().is_empty());
}

#[test]
fn capabilities_follow_keywords_in_rule_order() {
    let caps = infer_capabilities_from_purpose("SecurityBot", "Reviews CODE for flaws");
    assert_eq!(
        caps,
        vec!["security_analysis", "vulnerability_detection", "code_review", "pattern_analysis"]
    );
    assert_eq!(infer_capabilities_from_purpose("x", "y"), vec!["general".to_string()]);
    assert_eq!(capabilities_for("sql"), vec!["database_optimization", "schema_design"]);
    assert_eq!(
        capabilities_for("build ui"),
        vec!["ui_ux_analysis", "accessibility"]
    );
}

#[test]
fn config_version_is_hex_sha256_of_the_text() {
    assert_eq!(config_version(""), "e3b0c44298fc1c149afbf4c8996fb92427ae41e4649b934ca495991b7852b855");
    assert_eq!(config_version("abc"), "ba7816bf8f01cfea414140de5dae2223b00361a396177a9cb410ff61f20015ad");
}

#[test]
fn update_gate_checks_the_version_then_validation() {
    let stored = "## agent\nname: a";
    let v = config_version(stored);
    let ok: Result<(), String> = Ok(());
    let bad: Result<(), String> = Err("No agent configurations found".to_string());
    assert_eq!(update_gate(Some("stale"), Some(stored), &ok), UpdateGate::Conflict(v.clone()));
    assert_eq!(update_gate(Some(&v), Some(stored), &ok), UpdateGate::Proceed);
    assert_eq!(update_gate(Some("stale"), None, &ok), UpdateGate::Proceed);
    assert_eq!(update_gate(None, Some(stored), &bad), UpdateGate::ValidationFailed("No agent configurations found".to_string()));
    assert_eq!(update_gate(Some("stale"), Some(stored), &bad), UpdateGate::Conflict(v));
}

#[test]
fn only_backups_beyond_the_newest_are_removed() {
    let entries = vec![
        ("AGENTS.md.1.backup".to_string(), Some(10u128)),
        ("notes.txt".to_string(), Some(99u128)),
        ("AGENTS.md.3.backup".to_string(), Some(30u128)),
        ("AGENTS.md.2.backup".to_string(), Some(20u128)),
        ("AGENTS.md.x.backup".to_string(), None),
    ];
    assert_eq!(backups_to_remove(&entries, 2), vec!["AGENTS.md.1.backup".to_string(), "AGENTS.md.x.backup".to_string()]);
    assert!(backups_to_remove(&entries, 10).is_empty());
    assert_eq!(backups_to_remove(&entries, 0).len(), 4);
}
