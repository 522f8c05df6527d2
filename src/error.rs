//! Failures of a dispatch attempt.

use vstd::prelude::*;

verus! {

/// Why a request could not be completed.
#[derive(Clone, Copy, Debug, PartialEq, Eq, Structural)]
pub enum SendRequestError {
    /// Waiting for the connection to accept a new stream failed.
    ConnectionNotReady,
    /// Opening the stream with the request headers failed.
    DispatchFailure,
    /// The transport failed.
    Io,
    /// The body producer failed while the body was streamed.
    BodyProducer,
    /// The protocol engine reported a failure.
    Protocol,
}

/// How the protocol engine classified a failure.
#[derive(Clone, Copy, Debug, PartialEq, Eq, Structural)]
pub struct EngineFailure {
    /// The failure came from the transport.
    pub is_io: bool,
}

} // verus!
