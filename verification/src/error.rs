//! The error type shared by every operation of the protocol engine.

use vstd::prelude::*;

verus! {

/// Failure of a protocol-engine operation.
///
/// Transport failures come from the socket, decode failures from a malformed
/// frame or body, `AuthFailed` from an explicit rejection of the password,
/// `ApiError` from a peer reply whose response code is the failure token, and
/// `InternalError` from a missing expected header or an unparseable
/// response-code line.
#[derive(Debug, Clone, PartialEq, Eq)]
pub enum EslError {
    Transport(String),
    Decode(String),
    AuthFailed,
    ApiError(String),
    InternalError(String),
}

} // verus!
