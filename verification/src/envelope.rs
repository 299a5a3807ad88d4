//! The request and response envelopes exchanged over one connection, and the
//! fixed error taxonomy.

use vstd::prelude::*;

verus! {

/// Error code for a request body that is not a well-formed envelope.
pub const PARSE_ERROR: i32 = -32700;

/// Error code for a method name the dispatcher does not know.
pub const METHOD_NOT_FOUND: i32 = -32601;

/// Error code for a missing or mistyped parameter, an unknown model, or an
/// unknown session.
pub const INVALID_PARAMS: i32 = -32602;

/// Error code for a handler failure or an internal invariant violation.
pub const INTERNAL_ERROR: i32 = -32603;

/// The parameters a request may carry. Each method reads a subset of these
/// fields; a field is `Some` exactly when the decoded body held it as a
/// string.
pub struct Params {
    pub model: Option<String>,
    pub session_id: Option<String>,
    pub prompt: Option<String>,
}

/// A decoded request envelope: a correlation token, a method name, and the
/// parameters.
pub struct MCPRequest {
    pub id: String,
    pub method: String,
    pub params: Params,
}

/// A structured error: a code from the fixed taxonomy and a message.
pub struct MCPError {
    pub code: i32,
    pub message: String,
}

/// The payload a successful method call produces; `Null` when the response
/// carries an error instead.
pub enum ResultPayload {
    Null,
    SessionId(String),
    Generated(String),
    Success(bool),
    Models(Vec<String>),
}

/// A response envelope: the echoed correlation token, a result payload, and
/// an optional error. Exactly one of `result` / `error` carries content.
pub struct MCPResponse {
    pub id: String,
    pub result: ResultPayload,
    pub error: Option<MCPError>,
}

/// Holds when `r` is the error envelope with the given id, code and message,
/// and a null result.
pub open spec fn is_error_response(r: MCPResponse, id: Seq<char>, code: int, message: Seq<char>) -> bool {
    &&& r.id@ == id
    &&& r.result is Null
    &&& r.error matches Some(e) && e.code as int == code && e.message@ == message
}

/// Holds when `r` is a success envelope: no error beside the payload.
pub open spec fn is_success_response(r: MCPResponse, id: Seq<char>) -> bool {
    &&& r.id@ == id
    &&& r.error is None
}

} // verus!
