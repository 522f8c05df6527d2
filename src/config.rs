//! The settings with which a new multiplexed connection is negotiated.

use vstd::prelude::*;

verus! {

/// The connector's flow-control configuration.
#[derive(Clone, Copy, Debug, PartialEq, Eq, Structural)]
pub struct ConnectorConfig {
    /// Initial per-stream flow-control window.
    pub stream_window_size: u32,
    /// Initial per-connection flow-control window.
    pub conn_window_size: u32,
}

/// What the handshake asks of the peer.
#[derive(Clone, Copy, Debug, PartialEq, Eq, Structural)]
pub struct HandshakeSettings {
    pub initial_window_size: u32,
    pub initial_connection_window_size: u32,
    /// Whether the peer may open streams of its own.
    pub enable_push: bool,
}

/// The windows come from the configuration; a client never accepts pushed
/// streams.
pub fn handshake_settings(config: &ConnectorConfig) -> (r: HandshakeSettings)
    ensures
        r.initial_window_size == config.stream_window_size,
        r.initial_connection_window_size == config.conn_window_size,
        !r.enable_push,
{
    HandshakeSettings {
        initial_window_size: config.stream_window_size,
        initial_connection_window_size: config.conn_window_size,
        enable_push: false,
    }
}

} // verus!
