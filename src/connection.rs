//! Connection identifiers, their generator, and the per-connection record.
use vstd::prelude::*;
use crate::text::{decimal, decimal_string};

verus! {

/// Identifies one connection for the lifetime of the server process.
#[derive(Debug, Clone, Copy, PartialEq, Eq, Hash, Structural)]
pub struct ConnectionId(pub u64);

impl ConnectionId {
    /// Wraps a raw identifier.
    pub fn new(id: u64) -> (r: ConnectionId)
        ensures
            r.0 == id,
    {
        ConnectionId(id)
    }

    /// The raw identifier.
    pub fn value(&self) -> (r: u64)
        ensures
            r == self.0,
    {
        self.0
    }

    /// The identifier in decimal.
    pub fn to_string(&self) -> (r: String)
        ensures
            r@ == decimal(self.0 as nat),
    {
        decimal_string(self.0)
    }
}

/// Hands out connection identifiers, counting up from 1.
#[derive(Debug)]
pub struct ConnectionIdGenerator {
    next_id: u64,
}

/// `id` is what a generator in state `before` hands out, leaving it in state `after`.
pub open spec fn issues(before: ConnectionIdGenerator, after: ConnectionIdGenerator, id: ConnectionId) -> bool {
    &&& id.0 == before.upcoming()
    &&& after.upcoming() == before.upcoming() + 1
}

impl ConnectionIdGenerator {
    /// The identifier that the next call hands out.
    pub closed spec fn upcoming(&self) -> nat {
        self.next_id as nat
    }

    /// Creates a generator whose first identifier is 1.
    pub fn new() -> (r: ConnectionIdGenerator)
        ensures
            r.upcoming() == 1,
    {
        ConnectionIdGenerator { next_id: 1 }
    }

    /// Whether another identifier can be handed out.
    pub fn has_next(&self) -> (r: bool)
        ensures
            r == (self.upcoming() < u64::MAX),
    {
        self.next_id < u64::MAX
    }

    /// Hands out the next identifier.
    pub fn next(&mut self) -> (r: ConnectionId)
        requires
            old(self).upcoming() < u64::MAX,
        ensures
            issues(*old(self), *final(self), r),
    {
        let id = self.next_id;
        self.next_id = id + 1;
        ConnectionId(id)
    }
}

impl Default for ConnectionIdGenerator {
    fn default() -> (r: ConnectionIdGenerator)
        ensures
            r.upcoming() == 1,
    {
        ConnectionIdGenerator::new()
    }
}

/// Identifiers only grow: of two successive calls the second hands out a
/// larger identifier, and every later identifier is larger than any handed
/// out before, so none repeats.
pub proof fn lemma_ids_increase(
    g0: ConnectionIdGenerator,
    g1: ConnectionIdGenerator,
    g2: ConnectionIdGenerator,
    a: ConnectionId,
    b: ConnectionId,
)
    requires
        issues(g0, g1, a),
        issues(g1, g2, b),
    ensures
        a.0 < b.0,
        a.0 < g1.upcoming(),
        b.0 < g2.upcoming(),
{
}

/// Lifecycle of a connection.
#[derive(Debug, Clone, Copy, PartialEq, Eq, Structural)]
pub enum ConnectionState {
    Connecting,
    Connected,
    Disconnecting,
    Closed,
}

/// Metadata of one connection. Times are milliseconds on the server's
/// monotonic clock.
#[derive(Debug, Clone)]
pub struct Connection {
    pub id: ConnectionId,
    pub remote_addr: String,
    pub state: ConnectionState,
    pub created_at: u64,
    pub last_active: u64,
}

/// How long a connection last active at `last_active` has been idle at `now`.
pub open spec fn idle_for(last_active: u64, now: u64) -> nat {
    if now >= last_active {
        (now - last_active) as nat
    } else {
        0
    }
}

impl Connection {
    /// The record is consistent: it was last active no earlier than created.
    pub open spec fn wf(&self) -> bool {
        self.created_at <= self.last_active
    }

    /// A connected record created at `now`.
    pub fn new(id: ConnectionId, remote_addr: String, now: u64) -> (r: Connection)
        ensures
            r.id == id,
            r.remote_addr@ == remote_addr@,
            r.state == ConnectionState::Connected,
            r.created_at == now,
            r.last_active == now,
            r.wf(),
    {
        Connection { id, remote_addr, state: ConnectionState::Connected, created_at: now, last_active: now }
    }

    /// Records activity at `now`. A closed record is not changed, and the
    /// activity time never moves backwards.
    pub fn update_active(&mut self, now: u64)
        ensures
            final(self).id == old(self).id,
            final(self).remote_addr == old(self).remote_addr,
            final(self).state == old(self).state,
            final(self).created_at == old(self).created_at,
            final(self).last_active == if old(self).state == ConnectionState::Closed
                || now < old(self).last_active {
                old(self).last_active
            } else {
                now
            },
            old(self).wf() ==> final(self).wf(),
    {
        if self.state != ConnectionState::Closed && now >= self.last_active {
            self.last_active = now;
        }
    }

    /// Two records carry the same fields.
    pub open spec fn same_as(&self, other: &Connection) -> bool {
        &&& self.id == other.id
        &&& self.remote_addr@ == other.remote_addr@
        &&& self.state == other.state
        &&& self.created_at == other.created_at
        &&& self.last_active == other.last_active
    }

    /// A copy of the record.
    pub fn snapshot(&self) -> (r: Connection)
        ensures
            r.same_as(self),
    {
        Connection {
            id: self.id,
            remote_addr: self.remote_addr.clone(),
            state: self.state,
            created_at: self.created_at,
            last_active: self.last_active,
        }
    }

    /// Marks the record closed.
    pub fn close(&mut self)
        ensures
            final(self).state == ConnectionState::Closed,
            final(self).id == old(self).id,
            final(self).remote_addr == old(self).remote_addr,
            final(self).created_at == old(self).created_at,
            final(self).last_active == old(self).last_active,
    {
        self.state = ConnectionState::Closed;
    }

    /// Time since creation, at `now`.
    pub fn age(&self, now: u64) -> (r: u64)
        ensures
            r == idle_for(self.created_at, now),
    {
        if now >= self.created_at {
            now - self.created_at
        } else {
            0
        }
    }

    /// Time since the last activity, at `now`.
    pub fn idle_time(&self, now: u64) -> (r: u64)
        ensures
            r == idle_for(self.last_active, now),
    {
        if now >= self.last_active {
            now - self.last_active
        } else {
            0
        }
    }
}

} // verus!
