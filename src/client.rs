//! Client-side connection state.
use vstd::prelude::*;

verus! {

/// Lifecycle of a client connection.
#[derive(Debug, Clone, Copy, PartialEq, Eq, Structural)]
pub enum ClientState {
    Disconnected,
    Connecting,
    Connected,
    Reconnecting,
    ShuttingDown,
}

} // verus!
