use arkavo_protocol::failover::{FailoverAction, FailoverEvent, FailoverPhase, FailoverState, TransportType};

const SECOND: u128 = 1_000_000_000;

#[test]
fn websocket_is_tried_first_then_http() {
    let mut s = FailoverState::new(30 * SECOND, 0);
    assert!(!s.is_connected());
    assert_eq!(s.step(FailoverEvent::Send, 1), FailoverAction::NotConnected);
    assert_eq!(s.step(FailoverEvent::Connect, 1), FailoverAction::TryWebSocket);
    assert_eq!(s.step(FailoverEvent::WebSocketConnected(false), 2), FailoverAction::TryHttp);
    assert_eq!(s.step(FailoverEvent::HttpConnected(true), 3), FailoverAction::Connected);
    assert_eq!(s.active_transport_type(), Some(TransportType::Http));
    assert_eq!(s.phase, FailoverPhase::Idle);
}

#[test]
fn http_mode_retries_websocket_after_the_interval() {
    let mut s = FailoverState::new(30 * SECOND, 0);
    s.step(FailoverEvent::Connect, SECOND);
    s.step(FailoverEvent::WebSocketConnected(false), SECOND);
    s.step(FailoverEvent::HttpConnected(true), SECOND);
    assert_eq!(s.step(FailoverEvent::Send, 10 * SECOND), FailoverAction::SendHttp);
    assert_eq!(s.step(FailoverEvent::Send, 31 * SECOND), FailoverAction::TryWebSocket);
    assert_eq!(s.step(FailoverEvent::WebSocketConnected(false), 31 * SECOND), FailoverAction::SendHttp);
    assert_eq!(s.step(FailoverEvent::Send, 32 * SECOND), FailoverAction::SendHttp);
    assert_eq!(s.step(FailoverEvent::Send, 61 * SECOND), FailoverAction::TryWebSocket);
    assert_eq!(s.step(FailoverEvent::WebSocketConnected(true), 61 * SECOND), FailoverAction::SendWebSocket);
    assert_eq!(s.active_transport_type(), Some(TransportType::WebSocket));
}

#[test]
fn a_failed_websocket_send_falls_back_to_http() {
    let mut s = FailoverState::new(30 * SECOND, 0);
    s.step(FailoverEvent::Connect, 0);
    assert_eq!(s.step(FailoverEvent::WebSocketConnected(true), 0), FailoverAction::Connected);
    assert_eq!(s.step(FailoverEvent::Send, 1), FailoverAction::SendWebSocket);
    assert_eq!(s.step(FailoverEvent::WebSocketSendFailed, 1), FailoverAction::TryHttp);
    assert_eq!(s.step(FailoverEvent::HttpConnected(false), 1), FailoverAction::ReturnError);
    assert_eq!(s.active_transport_type(), Some(TransportType::WebSocket));
    assert_eq!(s.step(FailoverEvent::Close, 2), FailoverAction::Closed(Some(TransportType::WebSocket)));
    assert!(!s.is_connected());
    assert_eq!(s.step(FailoverEvent::Close, 3), FailoverAction::Closed(None));
}
