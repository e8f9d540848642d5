//! JSON-RPC error codes of the A2A protocol.

use vstd::prelude::*;

verus! {

pub const PARSE_ERROR: i32 = -32700;
pub const INVALID_REQUEST: i32 = -32600;
pub const METHOD_NOT_FOUND: i32 = -32601;
pub const INVALID_PARAMS: i32 = -32602;
pub const INTERNAL_ERROR: i32 = -32603;
pub const SERVER_ERROR_START: i32 = -32000;
pub const SERVER_ERROR_END: i32 = -32099;
pub const TRANSPORT_ERROR: i32 = -32000;
pub const CONNECTION_ERROR: i32 = -32001;
pub const TIMEOUT_ERROR: i32 = -32002;
pub const TLS_ERROR: i32 = -32003;
pub const AUTHENTICATION_ERROR: i32 = -32004;

} // verus!
