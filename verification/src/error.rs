//! What can go wrong in a tunnel.

use vstd::prelude::*;

verus! {

/// A violation of the handshake format. Always fatal to the tunnel.
#[derive(Clone, Copy, Debug, PartialEq, Eq, Structural)]
pub enum ProtocolError {
    InvalidVersion,
    Unauthorized,
    InvalidAddressType,
    InvalidEncoding,
    UnsupportedNetwork,
}

/// A failure of the message transport itself. Always fatal to the tunnel.
#[derive(Clone, Copy, Debug, PartialEq, Eq, Structural)]
pub enum TransportError {
    /// The transport reported an error, or a frame could not be buffered.
    Failed,
    /// The stream ended inside a field.
    UnexpectedEof,
    /// A write or flush on a stream that is closed.
    BrokenPipe,
}

/// Why a tunnel ended abnormally.
#[derive(Clone, Copy, Debug, PartialEq, Eq, Structural)]
pub enum TunnelError {
    Protocol(ProtocolError),
    Transport(TransportError),
    /// No candidate destination accepted the connection.
    NoReachableTarget,
    /// Forwarding failed after data had started to flow.
    Relay,
    /// The caller reported something that does not answer the last action.
    OutOfTurn,
}

} // verus!
