//! Request and response shapes of the A2A JSON-RPC transport, and its
//! configuration.

use vstd::prelude::*;

use crate::strings::owned;

pub mod error_codes;

verus! {

/// `Uuid::new_v4`. Nothing is promised of the value: it is random. Panics
/// if the operating system's random source fails.
#[verifier::external_body]
fn fresh_uuid() -> (r: uuid::Uuid) {
    uuid::Uuid::new_v4()
}

/// A JSON-RPC request.
#[derive(Debug, Clone)]
pub struct A2aRequest {
    pub jsonrpc: String,
    pub id: uuid::Uuid,
    pub method: String,
    pub params: serde_json::Value,
}

impl A2aRequest {
    /// A JSON-RPC 2.0 request with a fresh random id.
    /// Draws from the operating system's random source, which panics only if that source fails.
    pub fn new(method: &str, params: serde_json::Value) -> (r: A2aRequest)
        ensures
            r.jsonrpc@ == "2.0"@,
            r.method@ == method@,
            r.params == params,
    {
        A2aRequest { jsonrpc: owned("2.0"), id: fresh_uuid(), method: owned(method), params }
    }
}

/// A JSON-RPC error object.
#[derive(Debug, Clone)]
pub struct JsonRpcError {
    pub code: i32,
    pub message: String,
    pub data: Option<serde_json::Value>,
}

/// A JSON-RPC response: a result or an error.
#[derive(Debug, Clone)]
pub enum A2aResponse {
    Success { jsonrpc: String, id: uuid::Uuid, result: serde_json::Value },
    Error { jsonrpc: String, id: uuid::Uuid, error: JsonRpcError },
}

/// Where a peer agent listens.
#[derive(Debug, Clone, PartialEq, Eq)]
pub struct A2aEndpoint {
    pub url: String,
    pub agent_id: String,
    pub public_key: Option<String>,
}

/// TLS settings of a transport.
#[derive(Debug, Clone, PartialEq, Eq)]
pub struct TlsConfig {
    /// Certificate verification is always on. `false` is ignored.
    pub verify_cert: bool,
    pub require_tls: bool,
    pub client_cert_path: Option<String>,
    pub client_key_path: Option<String>,
    pub ca_cert_path: Option<String>,
}

impl Default for TlsConfig {
    fn default() -> (c: Self)
        ensures
            c.verify_cert,
            c.require_tls,
            c.client_cert_path is None,
            c.client_key_path is None,
            c.ca_cert_path is None,
    {
        TlsConfig { verify_cert: true, require_tls: true, client_cert_path: None, client_key_path: None, ca_cert_path: None }
    }
}

/// Timeouts and retries of a transport.
#[derive(Debug, Clone, PartialEq, Eq)]
pub struct TransportConfig {
    pub timeout_ms: u64,
    pub max_retries: u32,
    pub retry_delay_ms: u64,
    pub tls_config: TlsConfig,
}

impl Default for TransportConfig {
    fn default() -> (c: Self)
        ensures
            c.timeout_ms == 30000,
            c.max_retries == 3,
            c.retry_delay_ms == 1000,
            c.tls_config.verify_cert,
            c.tls_config.require_tls,
            c.tls_config.client_cert_path is None,
            c.tls_config.client_key_path is None,
            c.tls_config.ca_cert_path is None,
    {
        TransportConfig { timeout_ms: 30000, max_retries: 3, retry_delay_ms: 1000, tls_config: TlsConfig::default() }
    }
}

} // verus!
