//! The errors that the multiplexer reports.

use vstd::prelude::*;

verus! {

/// What went wrong in a session or on one of its streams.
#[derive(Clone, Copy, Debug, PartialEq, Eq, Structural)]
pub enum Error {
    /// The bytes on the connection are not a valid frame. Framing cannot be
    /// recovered, so this ends the whole session.
    ProtocolError,
    /// The session has shut down, or is shutting down.
    SessionShutdown,
    /// The session already holds as many live streams as it may, or has no
    /// stream id left to give out.
    StreamsExhausted,
    /// The stream was reset, by the peer or locally.
    StreamReset,
    /// The local side has already closed its direction of the stream.
    StreamClosed,
    /// The handle names a stream that the session does not hold.
    UnknownStream,
    /// The peer sent more data than the receive window allowed, or granted
    /// more credit than a window can hold.
    WindowViolation,
}

impl Error {
    /// Whether the error ends the whole session rather than a single stream
    /// or a single request.
    pub open spec fn spec_is_fatal(self) -> bool {
        self == Error::ProtocolError || self == Error::SessionShutdown
    }

    /// Whether the error ends the whole session rather than a single stream
    /// or a single request.
    pub fn is_fatal(self) -> (fatal: bool)
        ensures
            fatal == self.spec_is_fatal(),
    {
        match self {
            Error::ProtocolError | Error::SessionShutdown => true,
            _ => false,
        }
    }
}

} // verus!
