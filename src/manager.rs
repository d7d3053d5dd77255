//! Connection bookkeeping: identifiers, the live pool and the counters kept
//! in step.
use vstd::prelude::*;
use crate::config::ConnectionManagerConfig;
use crate::connection::{Connection, ConnectionId, ConnectionIdGenerator, ConnectionState};
use crate::error::AeroXError;
use crate::metrics::{summary_text, ConnectionMetrics};
use crate::pool::{is_idle, ConnectionPool};
use crate::text::{decimal, push_decimal};

verus! {

broadcast use vstd::string::group_string_axioms;

/// Creates and removes connections, keeping the pool, the identifier
/// generator and the counters consistent: the current-connection counter
/// equals the number of pooled connections, and every pooled id was handed
/// out already.
pub struct ConnectionManager {
    pool: ConnectionPool,
    metrics: ConnectionMetrics,
    id_generator: ConnectionIdGenerator,
}

/// The text of `report` for `count` connections and these counters.
pub open spec fn report_text(count: nat, metrics: crate::metrics::MetricValues) -> Seq<char> {
    "连接管理器报告:\n- 连接数: "@ + decimal(count) + "\n- "@ + summary_text(metrics)
}

impl ConnectionManager {
    /// Live connections by id.
    pub closed spec fn connections(&self) -> Map<u64, Connection> {
        self.pool@
    }

    /// The counters.
    pub closed spec fn counters(&self) -> crate::metrics::MetricValues {
        self.metrics@
    }

    /// The id that the next connection gets.
    pub closed spec fn upcoming(&self) -> nat {
        self.id_generator.upcoming()
    }

    /// The pool, the counters and the generator agree.
    pub closed spec fn wf(&self) -> bool {
        &&& self.pool.wf()
        &&& self.metrics@.0 == self.pool@.dom().len()
        &&& forall|k: u64| #[trigger] self.pool@.contains_key(k) ==> k < self.id_generator.upcoming()
    }

    /// Whether another connection can be counted and numbered.
    pub open spec fn has_room(&self) -> bool {
        &&& self.upcoming() < u64::MAX
        &&& self.counters().0 < usize::MAX
        &&& self.counters().1 < u64::MAX
    }

    /// A manager with no connections. The reaping settings are used by
    /// whoever schedules `cleanup_idle`.
    pub fn new(config: ConnectionManagerConfig) -> (r: ConnectionManager)
        ensures
            r.wf(),
            r.connections() == Map::<u64, Connection>::empty(),
            r.counters() == (0nat, 0nat, 0nat, 0nat, 0nat, 0nat),
            r.upcoming() == 1,
    {
        let pool = ConnectionPool::new();
        proof {
            pool.lemma_size();
        }
        ConnectionManager { pool, metrics: ConnectionMetrics::new(), id_generator: ConnectionIdGenerator::new() }
    }

    /// A manager with the default settings.
    pub fn with_defaults() -> (r: ConnectionManager)
        ensures
            r.wf(),
            r.connections() == Map::<u64, Connection>::empty(),
            r.counters() == (0nat, 0nat, 0nat, 0nat, 0nat, 0nat),
            r.upcoming() == 1,
    {
        ConnectionManager::new(ConnectionManagerConfig::default())
    }

    /// Records a new connection from `remote_addr` at `now` under a fresh id.
    /// Fails, changing nothing, only when ids or counters are exhausted.
    pub fn create_connection(&mut self, remote_addr: String, now: u64) -> (r: Result<ConnectionId, AeroXError>)
        requires
            old(self).wf(),
        ensures
            final(self).wf(),
            r is Ok <==> old(self).has_room(),
            r is Ok ==> {
                let id = r->Ok_0;
                &&& id.0 == old(self).upcoming()
                &&& !old(self).connections().contains_key(id.0)
                &&& final(self).connections().contains_key(id.0)
                &&& final(self).connections().remove(id.0) == old(self).connections()
                &&& final(self).connections()[id.0].id == id
                &&& final(self).connections()[id.0].remote_addr@ == remote_addr@
                &&& final(self).connections()[id.0].state == ConnectionState::Connected
                &&& final(self).connections()[id.0].created_at == now
                &&& final(self).connections()[id.0].last_active == now
                &&& final(self).upcoming() == old(self).upcoming() + 1
                &&& final(self).counters() == (
                    old(self).counters().0 + 1,
                    old(self).counters().1 + 1,
                    old(self).counters().2,
                    old(self).counters().3,
                    old(self).counters().4,
                    old(self).counters().5,
                )
            },
            r is Err ==> final(self).connections() == old(self).connections() && final(self).counters()
                == old(self).counters() && final(self).upcoming() == old(self).upcoming(),
    {
        if self.metrics.current_connections() == usize::MAX || self.metrics.total_connections() == u64::MAX
            || !self.id_generator.has_next() {
            return Err(AeroXError::connection("connection ids or counters exhausted"));
        }
        let ghost before = self.pool@;
        let id = self.id_generator.next();
        let conn = Connection::new(id, remote_addr, now);
        proof {
            self.pool.lemma_size();
        }
        self.pool.add(conn);
        self.metrics.inc_connections();
        proof {
            self.pool.lemma_size();
            assert(!before.contains_key(id.0));
            assert(self.pool@.dom() =~= before.dom().insert(id.0));
            assert(self.pool@.remove(id.0) =~= before);
            assert forall|k: u64| #[trigger] self.pool@.contains_key(k) implies k < self.id_generator.upcoming() by {
                if k != id.0 {
                    assert(before.contains_key(k));
                }
            }
        }
        Ok(id)
    }

    /// Removes the connection with `id`; reports whether it was there.
    pub fn remove_connection(&mut self, id: ConnectionId) -> (r: bool)
        requires
            old(self).wf(),
        ensures
            final(self).wf(),
            r == old(self).connections().contains_key(id.0),
            final(self).connections() == old(self).connections().remove(id.0),
            final(self).upcoming() == old(self).upcoming(),
            final(self).counters() == (
                if r { (old(self).counters().0 - 1) as nat } else { old(self).counters().0 },
                old(self).counters().1,
                old(self).counters().2,
                old(self).counters().3,
                old(self).counters().4,
                old(self).counters().5,
            ),
    {
        let ghost before = self.pool@;
        proof {
            self.pool.lemma_size();
        }
        let removed = self.pool.remove(id);
        proof {
            self.pool.lemma_size();
        }
        match removed {
            Some(_) => {
                assert(self.pool@.dom() =~= before.dom().remove(id.0));
                self.metrics.dec_connections();
                true
            },
            None => false,
        }
    }

    /// A copy of the connection with `id`, if any.
    pub fn get_connection(&self, id: ConnectionId) -> (r: Option<Connection>)
        requires
            self.wf(),
        ensures
            r is Some <==> self.connections().contains_key(id.0),
            r is Some ==> r->Some_0.same_as(&self.connections()[id.0]),
    {
        self.pool.get(id)
    }

    /// Number of live connections.
    pub fn connection_count(&self) -> (r: usize)
        requires
            self.wf(),
        ensures
            r == self.connections().dom().len(),
            r == self.counters().0,
    {
        self.pool.len()
    }

    /// The counters.
    pub fn metrics(&self) -> (r: &ConnectionMetrics)
        ensures
            r@ == self.counters(),
    {
        &self.metrics
    }

    /// Removes every connection idle for at least `timeout` at `now`, and
    /// lowers the current-connection counter to match; returns how many were
    /// removed.
    pub fn cleanup_idle(&mut self, timeout: u64, now: u64) -> (r: usize)
        requires
            old(self).wf(),
        ensures
            final(self).wf(),
            forall|k: u64|
                #[trigger] final(self).connections().contains_key(k) <==> (old(self).connections().contains_key(k)
                    && !is_idle(old(self).connections()[k], timeout, now)),
            forall|k: u64| #[trigger] final(self).connections().contains_key(k) ==> final(self).connections()[k] == old(self).connections()[k],
            r + final(self).connections().dom().len() == old(self).connections().dom().len(),
            final(self).counters().0 == final(self).connections().dom().len(),
            final(self).upcoming() == old(self).upcoming(),
    {
        let ghost before = self.pool@;
        let removed = self.pool.cleanup_idle(timeout, now);
        proof {
            assert forall|x: u64| #[trigger] self.pool@.contains_key(x) implies x < self.id_generator.upcoming() by {
                assert(before.contains_key(x));
            }
        }
        let ghost after = self.pool@;
        let mut k: usize = 0;
        while k < removed
            invariant
                k <= removed,
                self.pool.wf(),
                self.metrics@.0 + k == before.dom().len(),
                self.metrics@.0 >= removed - k,
                removed + self.pool@.dom().len() == before.dom().len(),
                self.pool@ == after,
                self.id_generator.upcoming() == old(self).id_generator.upcoming(),
                forall|x: u64| #[trigger] self.pool@.contains_key(x) ==> x < self.id_generator.upcoming(),
            decreases removed - k,
        {
            self.metrics.dec_connections();
            k = k + 1;
        }
        removed
    }

    /// A short report: the connection count and the counters.
    pub fn report(&self) -> (r: String)
        requires
            self.wf(),
        ensures
            r@ == report_text(self.connections().dom().len(), self.counters()),
    {
        let mut s = "连接管理器报告:\n- 连接数: ".to_string();
        push_decimal(&mut s, self.connection_count() as u64);
        s.append("\n- ");
        let summary = self.metrics.summary();
        s.append(summary.as_str());
        assert(s@ =~= report_text(self.connections().dom().len(), self.counters()));
        s
    }
}

} // verus!
