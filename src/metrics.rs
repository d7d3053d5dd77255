//! Process-wide connection and traffic counters.
use vstd::prelude::*;
use crate::text::{decimal, push_decimal};

verus! {

broadcast use vstd::string::group_string_axioms;

/// Counters of connections, bytes and messages. All but the current
/// connection count only grow.
#[derive(Debug)]
pub struct ConnectionMetrics {
    current_connections: usize,
    total_connections: u64,
    total_bytes_received: u64,
    total_bytes_sent: u64,
    total_messages_received: u64,
    total_messages_sent: u64,
}

/// The six counters in order: current connections, total connections,
/// bytes received, bytes sent, messages received, messages sent.
pub type MetricValues = (nat, nat, nat, nat, nat, nat);

/// The text that `summary` renders for these counters.
pub open spec fn summary_text(v: MetricValues) -> Seq<char> {
    "连接指标:\n- 当前连接: "@ + decimal(v.0) + "\n- 总连接数: "@ + decimal(v.1) + "\n- 接收字节: "@
        + decimal(v.2) + "\n- 发送字节: "@ + decimal(v.3) + "\n- 接收消息: "@ + decimal(v.4)
        + "\n- 发送消息: "@ + decimal(v.5)
}

impl View for ConnectionMetrics {
    type V = MetricValues;

    closed spec fn view(&self) -> MetricValues {
        (
            self.current_connections as nat,
            self.total_connections as nat,
            self.total_bytes_received as nat,
            self.total_bytes_sent as nat,
            self.total_messages_received as nat,
            self.total_messages_sent as nat,
        )
    }
}

impl ConnectionMetrics {
    /// All counters at zero.
    pub fn new() -> (r: ConnectionMetrics)
        ensures
            r@ == (0nat, 0nat, 0nat, 0nat, 0nat, 0nat),
    {
        ConnectionMetrics::with_values(0, 0, 0, 0, 0, 0)
    }

    /// Counters with the given values.
    pub fn with_values(
        current_connections: usize,
        total_connections: u64,
        total_bytes_received: u64,
        total_bytes_sent: u64,
        total_messages_received: u64,
        total_messages_sent: u64,
    ) -> (r: ConnectionMetrics)
        ensures
            r@ == (
                current_connections as nat,
                total_connections as nat,
                total_bytes_received as nat,
                total_bytes_sent as nat,
                total_messages_received as nat,
                total_messages_sent as nat,
            ),
    {
        ConnectionMetrics {
            current_connections,
            total_connections,
            total_bytes_received,
            total_bytes_sent,
            total_messages_received,
            total_messages_sent,
        }
    }

    /// A copy of the counters as they are now.
    pub fn clone_inner(&self) -> (r: ConnectionMetrics)
        ensures
            r@ == self@,
    {
        ConnectionMetrics::with_values(
            self.current_connections,
            self.total_connections,
            self.total_bytes_received,
            self.total_bytes_sent,
            self.total_messages_received,
            self.total_messages_sent,
        )
    }

    /// Records an opened connection.
    pub fn inc_connections(&mut self)
        requires
            old(self)@.0 < usize::MAX,
            old(self)@.1 < u64::MAX,
        ensures
            final(self)@ == (old(self)@.0 + 1, old(self)@.1 + 1, old(self)@.2, old(self)@.3, old(self)@.4, old(self)@.5),
    {
        self.current_connections = self.current_connections + 1;
        self.total_connections = self.total_connections + 1;
    }

    /// Records a closed connection; the current count does not go below zero.
    pub fn dec_connections(&mut self)
        ensures
            final(self)@ == (
                if old(self)@.0 == 0 { 0 } else { (old(self)@.0 - 1) as nat },
                old(self)@.1,
                old(self)@.2,
                old(self)@.3,
                old(self)@.4,
                old(self)@.5,
            ),
    {
        if self.current_connections > 0 {
            self.current_connections = self.current_connections - 1;
        }
    }

    /// Records received bytes.
    pub fn record_bytes_received(&mut self, bytes: u64)
        requires
            old(self)@.2 + bytes <= u64::MAX,
        ensures
            final(self)@ == (old(self)@.0, old(self)@.1, (old(self)@.2 + bytes) as nat, old(self)@.3, old(self)@.4, old(self)@.5),
    {
        self.total_bytes_received = self.total_bytes_received + bytes;
    }

    /// Records sent bytes.
    pub fn record_bytes_sent(&mut self, bytes: u64)
        requires
            old(self)@.3 + bytes <= u64::MAX,
        ensures
            final(self)@ == (old(self)@.0, old(self)@.1, old(self)@.2, (old(self)@.3 + bytes) as nat, old(self)@.4, old(self)@.5),
    {
        self.total_bytes_sent = self.total_bytes_sent + bytes;
    }

    /// Records a received message.
    pub fn record_message_received(&mut self)
        requires
            old(self)@.4 < u64::MAX,
        ensures
            final(self)@ == (old(self)@.0, old(self)@.1, old(self)@.2, old(self)@.3, old(self)@.4 + 1, old(self)@.5),
    {
        self.total_messages_received = self.total_messages_received + 1;
    }

    /// Records a sent message.
    pub fn record_message_sent(&mut self)
        requires
            old(self)@.5 < u64::MAX,
        ensures
            final(self)@ == (old(self)@.0, old(self)@.1, old(self)@.2, old(self)@.3, old(self)@.4, old(self)@.5 + 1),
    {
        self.total_messages_sent = self.total_messages_sent + 1;
    }

    /// Connections open now.
    pub fn current_connections(&self) -> (r: usize)
        ensures
            r == self@.0,
    {
        self.current_connections
    }

    /// Connections opened so far.
    pub fn total_connections(&self) -> (r: u64)
        ensures
            r == self@.1,
    {
        self.total_connections
    }

    /// Bytes received so far.
    pub fn total_bytes_received(&self) -> (r: u64)
        ensures
            r == self@.2,
    {
        self.total_bytes_received
    }

    /// Bytes sent so far.
    pub fn total_bytes_sent(&self) -> (r: u64)
        ensures
            r == self@.3,
    {
        self.total_bytes_sent
    }

    /// Messages received so far.
    pub fn total_messages_received(&self) -> (r: u64)
        ensures
            r == self@.4,
    {
        self.total_messages_received
    }

    /// Messages sent so far.
    pub fn total_messages_sent(&self) -> (r: u64)
        ensures
            r == self@.5,
    {
        self.total_messages_sent
    }

    /// A multi-line report of all counters.
    pub fn summary(&self) -> (r: String)
        ensures
            r@ == summary_text(self@),
    {
        let mut s = String::new();
        s.append("连接指标:\n- 当前连接: ");
        push_decimal(&mut s, self.current_connections as u64);
        s.append("\n- 总连接数: ");
        push_decimal(&mut s, self.total_connections);
        s.append("\n- 接收字节: ");
        push_decimal(&mut s, self.total_bytes_received);
        s.append("\n- 发送字节: ");
        push_decimal(&mut s, self.total_bytes_sent);
        s.append("\n- 接收消息: ");
        push_decimal(&mut s, self.total_messages_received);
        s.append("\n- 发送消息: ");
        push_decimal(&mut s, self.total_messages_sent);
        assert(s@ =~= summary_text(self@));
        s
    }
}

impl Default for ConnectionMetrics {
    fn default() -> (r: ConnectionMetrics)
        ensures
            r@ == (0nat, 0nat, 0nat, 0nat, 0nat, 0nat),
    {
        ConnectionMetrics::new()
    }
}

} // verus!
