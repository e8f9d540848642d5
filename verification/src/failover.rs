//! Failover between transports: WebSocket first, HTTP when WebSocket fails,
//! and a periodic return to WebSocket while running on HTTP. The caller
//! performs each action (a connect attempt, a send) and reports its outcome
//! as the next event.

use vstd::prelude::*;

verus! {

/// Transport type indicator.
#[derive(Debug, Clone, Copy, PartialEq, Eq)]
pub enum TransportType {
    WebSocket,
    Http,
}

/// What the transport is in the middle of.
#[derive(Debug, Clone, Copy, PartialEq, Eq)]
pub enum FailoverPhase {
    /// Nothing pending.
    Idle,
    /// Connecting: WebSocket first, then HTTP.
    Connecting,
    /// Running on HTTP and trying WebSocket again before a send.
    Upgrading,
    /// A WebSocket send failed; connecting over HTTP to send there.
    FallingBack,
}

/// The failover state of a transport. Times are nanoseconds on a monotonic
/// clock chosen by the caller.
#[derive(Debug, PartialEq, Eq)]
pub struct FailoverState {
    pub active: Option<TransportType>,
    pub has_endpoint: bool,
    pub phase: FailoverPhase,
    /// When WebSocket was last attempted.
    pub last_ws_attempt: u128,
    /// How long to run on HTTP before trying WebSocket again.
    pub ws_retry_interval: u128,
}

/// What happened.
#[derive(Debug, Clone, Copy, PartialEq, Eq)]
pub enum FailoverEvent {
    /// The caller connects to an endpoint.
    Connect,
    /// A WebSocket connect attempt succeeded (`true`) or failed.
    WebSocketConnected(bool),
    /// An HTTP connect attempt succeeded (`true`) or failed.
    HttpConnected(bool),
    /// A request is to be sent.
    Send,
    /// Sending over WebSocket failed.
    WebSocketSendFailed,
    /// The caller closes the transport.
    Close,
}

/// What the caller does next.
#[derive(Debug, Clone, Copy, PartialEq, Eq)]
pub enum FailoverAction {
    /// Attempt a WebSocket connection to the endpoint.
    TryWebSocket,
    /// Attempt an HTTP connection to the endpoint.
    TryHttp,
    /// Connecting succeeded.
    Connected,
    /// Connecting failed on both transports.
    ConnectFailed,
    /// Send the request over WebSocket.
    SendWebSocket,
    /// Send the request over HTTP.
    SendHttp,
    /// Fail the send: no transport is connected.
    NotConnected,
    /// Fail the send with the WebSocket error.
    ReturnError,
    /// Close the given transport, if any.
    Closed(Option<TransportType>),
    /// The event does not apply in this phase; nothing changes.
    Ignored,
}

/// A state with a new phase and active transport.
pub open spec fn moved(s: FailoverState, active: Option<TransportType>, phase: FailoverPhase) -> FailoverState {
    FailoverState { active, phase, ..s }
}

/// Whether, at `now`, the retry interval has passed since the last WebSocket
/// attempt (no time passes while the clock reads earlier than that attempt).
pub open spec fn retry_due(s: FailoverState, now: u128) -> bool {
    now >= s.last_ws_attempt && now - s.last_ws_attempt >= s.ws_retry_interval
}

/// The failover rules: the next state and action for an event at `now`.
pub open spec fn failover_step(s: FailoverState, e: FailoverEvent, now: u128) -> (FailoverState, FailoverAction) {
    match e {
        FailoverEvent::Connect => (
            FailoverState { has_endpoint: true, phase: FailoverPhase::Connecting, last_ws_attempt: now, ..s },
            FailoverAction::TryWebSocket,
        ),
        FailoverEvent::Close => (
            FailoverState { active: None, has_endpoint: false, phase: FailoverPhase::Idle, ..s },
            FailoverAction::Closed(s.active),
        ),
        FailoverEvent::WebSocketConnected(ok) => match s.phase {
            FailoverPhase::Connecting => if ok {
                (moved(s, Some(TransportType::WebSocket), FailoverPhase::Idle), FailoverAction::Connected)
            } else {
                (s, FailoverAction::TryHttp)
            },
            FailoverPhase::Upgrading => if ok {
                (moved(s, Some(TransportType::WebSocket), FailoverPhase::Idle), FailoverAction::SendWebSocket)
            } else {
                (moved(s, s.active, FailoverPhase::Idle), FailoverAction::SendHttp)
            },
            _ => (s, FailoverAction::Ignored),
        },
        FailoverEvent::HttpConnected(ok) => match s.phase {
            FailoverPhase::Connecting => if ok {
                (moved(s, Some(TransportType::Http), FailoverPhase::Idle), FailoverAction::Connected)
            } else {
                (moved(s, s.active, FailoverPhase::Idle), FailoverAction::ConnectFailed)
            },
            FailoverPhase::FallingBack => if ok {
                (moved(s, Some(TransportType::Http), FailoverPhase::Idle), FailoverAction::SendHttp)
            } else {
                (moved(s, s.active, FailoverPhase::Idle), FailoverAction::ReturnError)
            },
            _ => (s, FailoverAction::Ignored),
        },
        FailoverEvent::Send => if s.phase != FailoverPhase::Idle {
            (s, FailoverAction::Ignored)
        } else {
            match s.active {
                None => (s, FailoverAction::NotConnected),
                Some(TransportType::WebSocket) => (s, FailoverAction::SendWebSocket),
                Some(TransportType::Http) => if retry_due(s, now) && s.has_endpoint {
                    (
                        FailoverState { phase: FailoverPhase::Upgrading, last_ws_attempt: now, ..s },
                        FailoverAction::TryWebSocket,
                    )
                } else {
                    (s, FailoverAction::SendHttp)
                },
            }
        },
        FailoverEvent::WebSocketSendFailed => if s.phase == FailoverPhase::Idle && s.active == Some(
            TransportType::WebSocket,
        ) {
            if s.has_endpoint {
                (moved(s, s.active, FailoverPhase::FallingBack), FailoverAction::TryHttp)
            } else {
                (s, FailoverAction::ReturnError)
            }
        } else {
            (s, FailoverAction::Ignored)
        },
    }
}

impl FailoverState {
    /// A transport that has not connected, trying WebSocket again every
    /// `ws_retry_interval` nanoseconds while on HTTP.
    pub fn new(ws_retry_interval: u128, now: u128) -> (s: FailoverState)
        ensures
            s.active is None,
            !s.has_endpoint,
            s.phase == FailoverPhase::Idle,
            s.last_ws_attempt == now,
            s.ws_retry_interval == ws_retry_interval,
    {
        FailoverState {
            active: None,
            has_endpoint: false,
            phase: FailoverPhase::Idle,
            last_ws_attempt: now,
            ws_retry_interval,
        }
    }

    /// The transport in use, if connected.
    pub fn active_transport_type(&self) -> (r: Option<TransportType>)
        ensures
            r == self.active,
    {
        self.active
    }

    /// Whether a transport is connected.
    pub fn is_connected(&self) -> (r: bool)
        ensures
            r == self.active is Some,
    {
        self.active.is_some()
    }

    /// Apply one event at time `now` and say what to do next.
    pub fn step(&mut self, event: FailoverEvent, now: u128) -> (a: FailoverAction)
        ensures
            (*final(self), a) == failover_step(*old(self), event, now),
    {
        let phase = self.phase;
        match event {
            FailoverEvent::Connect => {
                self.has_endpoint = true;
                self.phase = FailoverPhase::Connecting;
                self.last_ws_attempt = now;
                FailoverAction::TryWebSocket
            },
            FailoverEvent::Close => {
                let was = self.active;
                self.active = None;
                self.has_endpoint = false;
                self.phase = FailoverPhase::Idle;
                FailoverAction::Closed(was)
            },
            FailoverEvent::WebSocketConnected(ok) => match phase {
                FailoverPhase::Connecting => if ok {
                    self.active = Some(TransportType::WebSocket);
                    self.phase = FailoverPhase::Idle;
                    FailoverAction::Connected
                } else {
                    FailoverAction::TryHttp
                },
                FailoverPhase::Upgrading => {
                    self.phase = FailoverPhase::Idle;
                    if ok {
                        self.active = Some(TransportType::WebSocket);
                        FailoverAction::SendWebSocket
                    } else {
                        FailoverAction::SendHttp
                    }
                },
                _ => FailoverAction::Ignored,
            },
            FailoverEvent::HttpConnected(ok) => match phase {
                FailoverPhase::Connecting => {
                    self.phase = FailoverPhase::Idle;
                    if ok {
                        self.active = Some(TransportType::Http);
                        FailoverAction::Connected
                    } else {
                        FailoverAction::ConnectFailed
                    }
                },
                FailoverPhase::FallingBack => {
                    self.phase = FailoverPhase::Idle;
                    if ok {
                        self.active = Some(TransportType::Http);
                        FailoverAction::SendHttp
                    } else {
                        FailoverAction::ReturnError
                    }
                },
                _ => FailoverAction::Ignored,
            },
            FailoverEvent::Send => match phase {
                FailoverPhase::Idle => match self.active {
                    None => FailoverAction::NotConnected,
                    Some(TransportType::WebSocket) => FailoverAction::SendWebSocket,
                    Some(TransportType::Http) => {
                        let due = now >= self.last_ws_attempt && now - self.last_ws_attempt
                            >= self.ws_retry_interval;
                        if due && self.has_endpoint {
                            self.phase = FailoverPhase::Upgrading;
                            self.last_ws_attempt = now;
                            FailoverAction::TryWebSocket
                        } else {
                            FailoverAction::SendHttp
                        }
                    },
                },
                _ => FailoverAction::Ignored,
            },
            FailoverEvent::WebSocketSendFailed => match (phase, self.active) {
                (FailoverPhase::Idle, Some(TransportType::WebSocket)) => if self.has_endpoint {
                    self.phase = FailoverPhase::FallingBack;
                    FailoverAction::TryHttp
                } else {
                    FailoverAction::ReturnError
                },
                _ => FailoverAction::Ignored,
            },
        }
    }
}

/// The failover policy: connecting always tries WebSocket first; a failed
/// WebSocket attempt while connecting falls back to HTTP; running on HTTP, a
/// send tries WebSocket again exactly when the retry interval has passed
/// (and an endpoint is known); and closing leaves nothing connected.
pub proof fn lemma_failover_policy(s: FailoverState, now: u128)
    ensures
        failover_step(s, FailoverEvent::Connect, now).1 == FailoverAction::TryWebSocket,
        s.phase == FailoverPhase::Connecting ==> failover_step(s, FailoverEvent::WebSocketConnected(false), now).1
            == FailoverAction::TryHttp,
        s.phase == FailoverPhase::Idle && s.active == Some(TransportType::Http) ==> (failover_step(
            s,
            FailoverEvent::Send,
            now,
        ).1 == FailoverAction::TryWebSocket <==> retry_due(s, now) && s.has_endpoint),
        failover_step(s, FailoverEvent::Close, now).0.active is None,
{
}

/// A successful connection makes its transport the active one: WebSocket
/// after a WebSocket connect or upgrade, HTTP after an HTTP connect or an
/// HTTP fallback from a failed WebSocket send; the next send then goes over
/// that transport. A failed attempt leaves the active transport as it was.
pub proof fn lemma_success_switches_transport(s: FailoverState, now: u128, later: u128)
    ensures
        (s.phase == FailoverPhase::Connecting || s.phase == FailoverPhase::Upgrading) ==> failover_step(
            s,
            FailoverEvent::WebSocketConnected(true),
            now,
        ).0.active == Some(TransportType::WebSocket),
        (s.phase == FailoverPhase::Connecting || s.phase == FailoverPhase::FallingBack) ==> failover_step(
            s,
            FailoverEvent::HttpConnected(true),
            now,
        ).0.active == Some(TransportType::Http),
        s.phase == FailoverPhase::FallingBack ==> failover_step(
            failover_step(s, FailoverEvent::HttpConnected(true), now).0,
            FailoverEvent::Send,
            later,
        ).1 != FailoverAction::SendWebSocket,
        (s.phase == FailoverPhase::Upgrading || s.phase == FailoverPhase::FallingBack) ==> failover_step(
            s,
            FailoverEvent::WebSocketConnected(false),
            now,
        ).0.active == s.active && failover_step(s, FailoverEvent::HttpConnected(false), now).0.active == s.active,
{
}

} // verus!
