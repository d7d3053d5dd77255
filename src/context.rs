//! The per-request value handed to handlers.
use vstd::prelude::*;
use crate::connection::ConnectionId;

verus! {

/// Values that middleware attaches to a request for handlers further in.
#[derive(Debug, Clone, Default)]
pub struct Extensions {}

impl Extensions {
    /// No values.
    pub fn new() -> (r: Extensions) {
        Extensions {  }
    }
}

/// One decoded request: who sent it, its header fields and its body.
/// `timestamp` is the arrival time in milliseconds on the server's clock.
#[derive(Debug, Clone)]
pub struct Context {
    pub connection_id: ConnectionId,
    pub peer_addr: String,
    pub message_id: u16,
    pub sequence_id: u32,
    pub data: Vec<u8>,
    pub extensions: Extensions,
    pub timestamp: u64,
}

impl Context {
    /// A request that arrived at `timestamp`.
    pub fn new(
        connection_id: ConnectionId,
        peer_addr: String,
        message_id: u16,
        sequence_id: u32,
        data: Vec<u8>,
        timestamp: u64,
    ) -> (r: Context)
        ensures
            r.connection_id == connection_id,
            r.peer_addr@ == peer_addr@,
            r.message_id == message_id,
            r.sequence_id == sequence_id,
            r.data@ == data@,
            r.timestamp == timestamp,
    {
        Context {
            connection_id,
            peer_addr,
            message_id,
            sequence_id,
            data,
            extensions: Extensions::new(),
            timestamp,
        }
    }

    /// The connection the request came on.
    pub fn connection_id(&self) -> (r: ConnectionId)
        ensures
            r == self.connection_id,
    {
        self.connection_id
    }

    /// The peer's address.
    pub fn peer_addr(&self) -> (r: &str)
        ensures
            r@ == self.peer_addr@,
    {
        self.peer_addr.as_str()
    }

    /// The message id.
    pub fn message_id(&self) -> (r: u16)
        ensures
            r == self.message_id,
    {
        self.message_id
    }

    /// The sequence id.
    pub fn sequence_id(&self) -> (r: u32)
        ensures
            r == self.sequence_id,
    {
        self.sequence_id
    }

    /// The body.
    pub fn data(&self) -> (r: &Vec<u8>)
        ensures
            r@ == self.data@,
    {
        &self.data
    }

    /// A copy of the body.
    pub fn data_clone(&self) -> (r: Vec<u8>)
        ensures
            r@ == self.data@,
    {
        let mut v: Vec<u8> = Vec::new();
        crate::bytes_le::append_bytes(&mut v, self.data.as_slice());
        v
    }
}

} // verus!
