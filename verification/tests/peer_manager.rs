use arkavo_protocol::peer_manager::{is_streaming_method, peer_url, PeerManager, PeerManagerConfig, TransportType};
use arkavo_protocol::transport::error_codes;
use arkavo_protocol::transport::{A2aRequest, A2aResponse, JsonRpcError, TransportConfig};

#[test]
fn test_peer_manager_creation() {
    let manager = PeerManager::new("test-agent".to_string());
    assert!(!manager.has_peers());
    assert_eq!(manager.peer_count(), 0);
}

#[test]
fn test_peer_manager_with_config() {
    let config = PeerManagerConfig {
        default_transport: TransportType::WebSocket,
        auto_upgrade_streaming: true,
        transport_config: TransportConfig::default(),
    };
    let manager = PeerManager::with_config("test-agent".to_string(), config);
    assert!(!manager.has_peers());
    assert_eq!(manager.peer_count(), 0);
}

#[test]
fn test_is_streaming_method() {
    assert!(is_streaming_method("chat_stream"));
    assert!(is_streaming_method("message/stream"));
    assert!(is_streaming_method("data_stream"));
    assert!(is_streaming_method("events/stream"));
    assert!(!is_streaming_method("agent_query"));
    assert!(!is_streaming_method("task_request"));
}

#[test]
fn test_transport_selection() {
    let config = PeerManagerConfig {
        default_transport: TransportType::Http,
        auto_upgrade_streaming: true,
        transport_config: TransportConfig::default(),
    };
    let manager = PeerManager::with_config("test-agent".to_string(), config);

    assert_eq!(manager.select_transport_for_method("chat_stream"), TransportType::WebSocket);
    assert_eq!(manager.select_transport_for_method("message/stream"), TransportType::WebSocket);
    assert_eq!(manager.select_transport_for_method("agent_query"), TransportType::Http);
    assert_eq!(manager.select_transport_for_method("task_request"), TransportType::Http);
}

#[test]
fn test_transport_selection_no_auto_upgrade() {
    let config = PeerManagerConfig {
        default_transport: TransportType::Http,
        auto_upgrade_streaming: false,
        transport_config: TransportConfig::default(),
    };
    let manager = PeerManager::with_config("test-agent".to_string(), config);

    assert_eq!(manager.select_transport_for_method("chat_stream"), TransportType::Http);
    assert_eq!(manager.select_transport_for_method("agent_query"), TransportType::Http);
}

#[test]
fn test_websocket_default_transport() {
    let config = PeerManagerConfig {
        default_transport: TransportType::WebSocket,
        auto_upgrade_streaming: false,
        transport_config: TransportConfig::default(),
    };
    let manager = PeerManager::with_config("test-agent".to_string(), config);

    assert_eq!(manager.select_transport_for_method("agent_query"), TransportType::WebSocket);
}

#[test]
fn test_connected_peers_empty() {
    let manager = PeerManager::new("test-agent".to_string());
    assert!(manager.connected_peers().is_empty());
    assert!(manager.connected_peers_with_transport().is_empty());
}

#[test]
fn recording_a_peer_twice_keeps_one_entry() {
    let mut manager = PeerManager::new("me".to_string());
    manager.record_peer("http://a", TransportType::Http);
    manager.record_peer("http://b", TransportType::WebSocket);
    manager.record_peer("http://a", TransportType::Custom);
    assert_eq!(manager.peer_count(), 2);
    assert_eq!(manager.connected_peers(), vec!["http://a".to_string(), "http://b".to_string()]);
    assert_eq!(manager.get_peer_transport_type("http://a"), Some(TransportType::Custom));
    assert_eq!(manager.get_peer_transport_type("http://c"), None);
}

#[test]
fn test_request_creation() {
    let request = A2aRequest::new("test_method", serde_json::from_str(r#"{"key": "value"}"#).unwrap());
    assert_eq!(request.jsonrpc, "2.0");
    assert_eq!(request.method, "test_method");
    assert!(!request.id.to_string().is_empty());
}

#[test]
fn error_responses_carry_their_code() {
    let response = A2aResponse::Error {
        jsonrpc: "2.0".to_string(),
        id: uuid::Uuid::new_v4(),
        error: JsonRpcError { code: error_codes::METHOD_NOT_FOUND, message: "Method not found".to_string(), data: None },
    };
    match response {
        A2aResponse::Error { error, .. } => assert_eq!(error.code, -32601),
        _ => panic!("expected an error response"),
    }
    let config = TransportConfig::default();
    assert_eq!(config.timeout_ms, 30000);
    assert!(config.tls_config.require_tls);
}

#[test]
fn peer_urls_take_the_scheme_of_their_transport() {
    assert_eq!(peer_url("agent:8080", TransportType::Http), "http://agent:8080");
    assert_eq!(peer_url("https://agent", TransportType::Http), "https://agent");
    assert_eq!(peer_url("ws://agent", TransportType::WebSocket), "ws://agent");
    assert_eq!(peer_url("http://agent/x", TransportType::WebSocket), "ws://agent/x");
    assert_eq!(peer_url("https://agent", TransportType::WebSocket), "wss://agent");
    assert_eq!(peer_url("agent", TransportType::WebSocket), "ws://agent");
    assert_eq!(peer_url("agent", TransportType::Custom), "agent");
}

#[test]
fn only_missing_or_mismatched_transports_are_replaced() {
    let mut m = PeerManager::new("me".to_string());
    assert!(m.needs_transport("p1", TransportType::Http));
    m.record_peer("p1", TransportType::Http);
    assert!(!m.needs_transport("p1", TransportType::Http));
    assert!(m.needs_transport("p1", TransportType::WebSocket));
    m.record_peer("p2", TransportType::Custom);
    assert!(!m.needs_transport("p2", TransportType::WebSocket));
}
