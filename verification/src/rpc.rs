//! JSON-RPC 2.0 error objects and the error codes the node answers with.
use vstd::prelude::*;

verus! {

/// Invalid JSON was received.
pub const PARSE_ERROR: i32 = -32700;
/// The request is not a valid JSON-RPC request.
pub const INVALID_REQUEST: i32 = -32600;
/// The method does not exist.
pub const METHOD_NOT_FOUND: i32 = -32601;
/// The parameters are invalid.
pub const INVALID_PARAMS: i32 = -32602;
/// An internal error.
pub const INTERNAL_ERROR: i32 = -32603;
/// A submitted transaction was rejected.
pub const TX_REJECTED: i32 = -32000;

/// JSON-RPC 2.0 error object.
pub struct JsonRpcError {
    pub code: i32,
    pub message: String,
}

} // verus!
