//! Numeric error codes used by the RPC server (JSON-RPC 2.0, plus one
//! implementation-defined code).
use vstd::prelude::*;

verus! {

/// Invalid JSON was received.
pub const PARSE_ERROR: i64 = -32700;

/// The JSON was valid but not a well-formed request.
pub const INVALID_REQUEST: i64 = -32600;

/// The requested method does not exist.
pub const METHOD_NOT_FOUND: i64 = -32601;

/// Method params failed validation.
pub const INVALID_PARAMS: i64 = -32602;

/// Unexpected server-side failure.
pub const INTERNAL_ERROR: i64 = -32603;

/// A turn is already in flight and the server refuses a second one.
pub const BUSY: i64 = -32000;

} // verus!
