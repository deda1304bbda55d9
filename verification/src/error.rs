//! The error taxonomy shared by the deadline primitive, the transport
//! model and the bootstrap discovery client.

use vstd::prelude::*;

verus! {

/// One error per failed attempt; retry policy belongs to the caller.
#[derive(Clone, Debug, PartialEq, Eq)]
pub enum KitsuneError {
    /// A deadline expired before the operation completed.
    TimedOut,
    /// The endpoint, connection or channel the operation was addressed to
    /// is closed; closing must surface as an error, never as a hang.
    Closed,
    /// Backend-specific bind / connect / stream failure.
    TransportError(String),
    /// Non-success response from the discovery server, carrying the raw
    /// server-provided text.
    Bootstrap(String),
    /// The local clock could not produce a usable time.
    ClockError,
    /// Malformed binary payload on decode.
    EncodingError,
}

/// Result alias used throughout the core.
pub type KitsuneResult<T> = Result<T, KitsuneError>;

} // verus!
