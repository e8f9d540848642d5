use arkavo_protocol::data_classification::{DataCategory, SensitivityLevel};
use arkavo_protocol::sequence_graph::{params_digest, GraphError, SequenceGraphBuilder, MAX_NODES};
use arkavo_protocol::taint::{TaintLabel, TaintSet};

fn tainted(source: &str, level: SensitivityLevel) -> TaintSet {
    TaintSet::from_label(TaintLabel::new(source, &[DataCategory::Internal], level))
}

fn json(text: &str) -> serde_json::Value {
    serde_json::from_str(text).expect("test JSON")
}

#[test]
fn a_new_graph_is_empty() {
    let graph = SequenceGraphBuilder::new();
    assert!(graph.is_empty());
    assert_eq!(graph.edges().len(), 0);
}

#[test]
fn push_returns_a_node_that_can_be_looked_up() {
    let mut graph = SequenceGraphBuilder::new();

    let id = graph
        .push("read_file", &json(r#"{"path": "/etc/hosts"}"#), &[], TaintSet::new())
        .expect("no inputs to validate");

    let node = graph.node(&id).expect("node stored");
    assert_eq!(node.tool_name, "read_file");
    assert!(node.inputs.is_empty());
}

#[test]
fn edges_connect_output_to_input() {
    let mut graph = SequenceGraphBuilder::new();
    let read = graph.push("read_file", &json("{}"), &[], TaintSet::new()).expect("root node");
    let post = graph.push("http_post", &json("{}"), &[read.clone()], TaintSet::new()).expect("known input");

    let edges: Vec<(String, String)> = graph.edges();

    assert_eq!(edges, vec![(read, post)]);
}

#[test]
fn an_unknown_input_is_rejected_and_the_graph_is_unchanged() {
    let mut graph = SequenceGraphBuilder::new();
    graph.push("read_file", &json("{}"), &[], TaintSet::new()).expect("root node");

    let err = graph
        .push("http_post", &json("{}"), &["n99".to_string()], TaintSet::new())
        .expect_err("unknown input rejected");

    assert_eq!(err, GraphError::UnknownInput("n99".to_string()));
    assert_eq!(graph.len(), 1);
}

#[test]
fn taint_flows_from_named_inputs() {
    let mut graph = SequenceGraphBuilder::new();
    let a = graph
        .push("read_file", &json("{}"), &[], tainted("file:a", SensitivityLevel::Internal))
        .expect("root");
    let b = graph
        .push("read_vault", &json("{}"), &[], tainted("tool:vault", SensitivityLevel::Restricted))
        .expect("root");

    let flowing = graph.taint_flowing_from(&[a, b]).expect("known inputs");

    assert_eq!(flowing.sensitivity(), SensitivityLevel::Restricted);
    assert_eq!(flowing.len(), 2);
}

#[test]
fn taint_from_an_unknown_node_is_an_error_not_an_empty_set() {
    let graph = SequenceGraphBuilder::new();

    let err = graph.taint_flowing_from(&["n0".to_string()]).expect_err("unknown node");

    assert_eq!(err, GraphError::UnknownInput("n0".to_string()));
}

#[test]
fn identical_parameters_digest_identically() {
    assert_eq!(params_digest(&json(r#"{"a": 1, "b": 2}"#)), params_digest(&json(r#"{"b": 2, "a": 1}"#)));
}

#[test]
fn different_parameters_digest_differently() {
    assert_ne!(params_digest(&json(r#"{"a": 1}"#)), params_digest(&json(r#"{"a": 2}"#)));
}

#[test]
fn the_digest_is_lowercase_hex_sha256() {
    let d = params_digest(&json("{}"));
    assert_eq!(d.len(), 64);
    assert!(d.chars().all(|c| c.is_ascii_digit() || ('a'..='f').contains(&c)));
    // sha256("{}")
    assert_eq!(d, "44136fa355b3678a1146ad16f7e8649e94fb4fc21fe77e8310c060f61caaff8a");
}

#[test]
fn the_graph_stops_growing_at_the_node_bound() {
    let mut graph = SequenceGraphBuilder::new();
    for _ in 0..MAX_NODES {
        graph.push("read", &json("{}"), &[], TaintSet::new()).expect("under the bound");
    }

    let refused = graph.push("read", &json("{}"), &[], TaintSet::new());

    assert_eq!(refused, Err(GraphError::Full));
    assert_eq!(graph.len(), MAX_NODES);
    assert_eq!(graph.truncated_nodes(), 1);
}

#[test]
fn a_full_graph_still_answers_for_what_it_holds() {
    let mut graph = SequenceGraphBuilder::new();
    let first = graph.push("read", &json(r#"{"p": 1}"#), &[], TaintSet::new()).expect("first node");
    for _ in 1..MAX_NODES {
        graph.push("read", &json("{}"), &[], TaintSet::new()).expect("under the bound");
    }
    let _ = graph.push("read", &json("{}"), &[], TaintSet::new());

    assert!(graph.node(&first).is_some());
}

#[test]
fn node_ids_follow_insertion_order() {
    let mut graph = SequenceGraphBuilder::new();
    let a = graph.push("a", &json("{}"), &[], TaintSet::new()).expect("a");
    let b = graph.push("b", &json("{}"), &[], TaintSet::new()).expect("b");
    assert_eq!(a, "n0");
    assert_eq!(b, "n1");
}

#[test]
fn edges_run_from_earlier_nodes_to_later_ones() {
    let mut graph = SequenceGraphBuilder::new();
    let a = graph.push("read_file", &json("{}"), &[], TaintSet::new()).expect("root");
    let b = graph.push("summarise", &json("{}"), &[a.clone()], TaintSet::new()).expect("known input");
    let c = graph.push("http_post", &json("{}"), &[a.clone(), b.clone()], TaintSet::new()).expect("known inputs");

    let position = |id: &str| graph.nodes().iter().position(|n| n.id == id).expect("node");
    let edges = graph.edges();
    assert_eq!(edges, vec![(a.clone(), b.clone()), (a, c.clone()), (b, c)]);
    for (from, to) in &edges {
        assert!(position(from) < position(to));
    }
}
