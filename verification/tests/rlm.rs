use arkavo_protocol::rlm::{estimate_tokens, model_context_size};

#[test]
fn test_estimate_tokens() {
    assert_eq!(estimate_tokens(""), 0);
    assert_eq!(estimate_tokens("hello"), 1);
    assert_eq!(estimate_tokens("hello world test"), 4);
}

#[test]
fn test_model_context_size() {
    assert_eq!(model_context_size(Some("270M"), false), 2_048);
    assert_eq!(model_context_size(Some("7B"), false), 32_768);
    assert_eq!(model_context_size(None, true), 131_072);
}

#[test]
fn token_estimate_counts_whole_groups_of_four_bytes() {
    assert_eq!(estimate_tokens("abc"), 0);
    assert_eq!(estimate_tokens("abcde"), 1);
    assert_eq!(estimate_tokens("ééé"), 1);
    assert_eq!(model_context_size(Some("1B"), false), 4_096);
    assert_eq!(model_context_size(Some("unknown"), false), 8_192);
}
