//! The set of live connections, keyed by connection id, with idle reaping.
use vstd::prelude::*;
use crate::connection::{idle_for, Connection, ConnectionId};

verus! {

/// Live connections. Each id appears at most once.
#[derive(Debug, Clone)]
pub struct ConnectionPool {
    connections: Vec<Connection>,
}

/// Whether some entry of `s` has id `k`.
pub open spec fn has_key(s: Seq<Connection>, k: u64) -> bool {
    exists|i: int| 0 <= i < s.len() && (#[trigger] s[i]).id.0 == k
}

/// No two entries of `s` share an id.
pub open spec fn unique_ids(s: Seq<Connection>) -> bool {
    forall|i: int, j: int|
        0 <= i < s.len() && 0 <= j < s.len() && (#[trigger] s[i]).id.0 == (#[trigger] s[j]).id.0
            ==> i == j
}

/// The entries of `s` as a map from id to record.
pub open spec fn key_map(s: Seq<Connection>) -> Map<u64, Connection> {
    Map::new(
        |k: u64| has_key(s, k),
        |k: u64| s[choose|i: int| 0 <= i < s.len() && (#[trigger] s[i]).id.0 == k],
    )
}

/// Whether a connection counts as idle under `timeout` at `now`.
pub open spec fn is_idle(c: Connection, timeout: u64, now: u64) -> bool {
    idle_for(c.last_active, now) >= timeout
}

proof fn lemma_key_map_at(s: Seq<Connection>, i: int)
    requires
        unique_ids(s),
        0 <= i < s.len(),
    ensures
        key_map(s).contains_key(s[i].id.0),
        key_map(s)[s[i].id.0] == s[i],
{
    let k = s[i].id.0;
    assert(has_key(s, k));
    let j = choose|j: int| 0 <= j < s.len() && (#[trigger] s[j]).id.0 == k;
    assert(s[j].id.0 == s[i].id.0);
}

proof fn lemma_dom_len(s: Seq<Connection>)
    requires
        unique_ids(s),
    ensures
        key_map(s).dom().finite(),
        key_map(s).dom().len() == s.len(),
{
    let ids = s.map_values(|c: Connection| c.id.0);
    assert(ids.no_duplicates()) by {
        assert forall|i: int, j: int| 0 <= i < ids.len() && 0 <= j < ids.len() && i != j implies ids[i]
            != ids[j] by {
            assert(ids[i] == s[i].id.0);
            assert(ids[j] == s[j].id.0);
        }
    }
    assert(key_map(s).dom() =~= ids.to_set()) by {
        assert forall|k: u64| #[trigger] key_map(s).dom().contains(k) <==> ids.to_set().contains(k) by {
            if has_key(s, k) {
                let i = choose|i: int| 0 <= i < s.len() && (#[trigger] s[i]).id.0 == k;
                assert(ids[i] == k);
            }
            if ids.to_set().contains(k) {
                assert(ids.contains(k));
                let i = choose|i: int| 0 <= i < ids.len() && ids[i] == k;
                assert(s[i].id.0 == k);
            }
        }
    }
    ids.unique_seq_to_set();
}

impl View for ConnectionPool {
    type V = Map<u64, Connection>;

    closed spec fn view(&self) -> Map<u64, Connection> {
        key_map(self.connections@)
    }
}

impl ConnectionPool {
    /// Ids are unique among the entries.
    pub closed spec fn wf(&self) -> bool {
        unique_ids(self.connections@)
    }

    /// Number of entries.
    pub closed spec fn size(&self) -> nat {
        self.connections@.len()
    }

    /// The number of entries is the number of ids in the view.
    pub proof fn lemma_size(&self)
        requires
            self.wf(),
        ensures
            self@.dom().finite(),
            self@.dom().len() == self.size(),
    {
        lemma_dom_len(self.connections@);
    }

    /// An empty pool.
    pub fn new() -> (r: ConnectionPool)
        ensures
            r.wf(),
            r@ == Map::<u64, Connection>::empty(),
            r.size() == 0,
    {
        let r = ConnectionPool { connections: Vec::new() };
        assert(r@ =~= Map::<u64, Connection>::empty());
        r
    }

    fn find(&self, id: ConnectionId) -> (r: Option<usize>)
        requires
            self.wf(),
        ensures
            r is None ==> !self@.contains_key(id.0),
            r is Some ==> r->Some_0 < self.connections@.len() && self.connections@[r->Some_0 as int].id.0
                == id.0,
    {
        let mut i: usize = 0;
        while i < self.connections.len()
            invariant
                i <= self.connections@.len(),
                forall|j: int| 0 <= j < i ==> (#[trigger] self.connections@[j]).id.0 != id.0,
            decreases self.connections@.len() - i,
        {
            if self.connections[i].id.0 == id.0 {
                return Some(i);
            }
            i = i + 1;
        }
        None
    }

    /// Adds a connection, replacing any entry with the same id.
    pub fn add(&mut self, conn: Connection)
        requires
            old(self).wf(),
        ensures
            final(self).wf(),
            final(self)@ == old(self)@.insert(conn.id.0, conn),
    {
        let k = conn.id.0;
        let ghost old_s = self.connections@;
        match self.find(conn.id) {
            Some(i) => {
                self.connections.set(i, conn);
                let ghost s = self.connections@;
                assert(unique_ids(s)) by {
                    assert forall|a: int, b: int|
                        0 <= a < s.len() && 0 <= b < s.len() && (#[trigger] s[a]).id.0 == (
                        #[trigger] s[b]).id.0 implies a == b by {
                        assert(old_s[a].id.0 == s[a].id.0);
                        assert(old_s[b].id.0 == s[b].id.0);
                    }
                }
                assert forall|j: int| 0 <= j < s.len() implies #[trigger] key_map(s).contains_key(s[j].id.0) && key_map(s)[s[j].id.0] == s[j] by {
                    lemma_key_map_at(s, j);
                }
                assert forall|j: int| 0 <= j < old_s.len() implies #[trigger] key_map(old_s).contains_key(old_s[j].id.0) && key_map(old_s)[old_s[j].id.0] == old_s[j] by {
                    lemma_key_map_at(old_s, j);
                }
                assert(key_map(s) =~= key_map(old_s).insert(k, conn)) by {
                    assert forall|x: u64| #[trigger] key_map(s).contains_key(x) <==> key_map(old_s).insert(k, conn).contains_key(x) by {
                        if has_key(s, x) {
                            let j = choose|j: int| 0 <= j < s.len() && (#[trigger] s[j]).id.0 == x;
                            if j != i {
                                assert(old_s[j] == s[j]);
                            }
                        }
                        if has_key(old_s, x) {
                            let j = choose|j: int| 0 <= j < old_s.len() && (#[trigger] old_s[j]).id.0 == x;
                            assert(s[j].id.0 == x);
                        }
                    }
                }
            },
            None => {
                self.connections.push(conn);
                let ghost s = self.connections@;
                assert(s[s.len() - 1] == conn);
                assert(unique_ids(s)) by {
                    assert forall|a: int, b: int|
                        0 <= a < s.len() && 0 <= b < s.len() && (#[trigger] s[a]).id.0 == (
                        #[trigger] s[b]).id.0 implies a == b by {
                        if a < old_s.len() {
                            assert(s[a] == old_s[a]);
                            assert(has_key(old_s, s[a].id.0));
                        }
                        if b < old_s.len() {
                            assert(s[b] == old_s[b]);
                            assert(has_key(old_s, s[b].id.0));
                        }
                    }
                }
                assert forall|j: int| 0 <= j < s.len() implies #[trigger] key_map(s).contains_key(s[j].id.0) && key_map(s)[s[j].id.0] == s[j] by {
                    lemma_key_map_at(s, j);
                }
                assert forall|j: int| 0 <= j < old_s.len() implies #[trigger] key_map(old_s).contains_key(old_s[j].id.0) && key_map(old_s)[old_s[j].id.0] == old_s[j] by {
                    lemma_key_map_at(old_s, j);
                }
                assert(key_map(s) =~= key_map(old_s).insert(k, conn)) by {
                    assert forall|x: u64| #[trigger] key_map(s).contains_key(x) <==> key_map(old_s).insert(k, conn).contains_key(x) by {
                        if has_key(s, x) {
                            let j = choose|j: int| 0 <= j < s.len() && (#[trigger] s[j]).id.0 == x;
                            if j < old_s.len() {
                                assert(old_s[j] == s[j]);
                            }
                        }
                        if has_key(old_s, x) {
                            let j = choose|j: int| 0 <= j < old_s.len() && (#[trigger] old_s[j]).id.0 == x;
                            assert(s[j].id.0 == x);
                        }
                    }
                }
            },
        }
    }

    /// Removes the entry with `id`, if any, and returns it. Removing an
    /// absent id is no error: the pool stays as it was.
    pub fn remove(&mut self, id: ConnectionId) -> (r: Option<Connection>)
        requires
            old(self).wf(),
        ensures
            final(self).wf(),
            final(self)@ == old(self)@.remove(id.0),
            !final(self)@.contains_key(id.0),
            old(self)@.contains_key(id.0) <==> r is Some,
            r is Some ==> r->Some_0 == old(self)@[id.0],
    {
        let ghost old_s = self.connections@;
        proof {
            assert forall|j: int| 0 <= j < old_s.len() implies #[trigger] key_map(old_s).contains_key(old_s[j].id.0) && key_map(old_s)[old_s[j].id.0] == old_s[j] by {
                lemma_key_map_at(old_s, j);
            }
        }
        match self.find(id) {
            None => {
                assert(key_map(old_s) =~= key_map(old_s).remove(id.0));
                None
            },
            Some(i) => {
                let c = self.connections.remove(i);
                let ghost s = self.connections@;
                assert(unique_ids(s)) by {
                    assert forall|a: int, b: int|
                        0 <= a < s.len() && 0 <= b < s.len() && (#[trigger] s[a]).id.0 == (
                        #[trigger] s[b]).id.0 implies a == b by {
                        let oa = if a < i { a } else { a + 1 };
                        let ob = if b < i { b } else { b + 1 };
                        assert(s[a] == old_s[oa]);
                        assert(s[b] == old_s[ob]);
                    }
                }
                assert forall|j: int| 0 <= j < s.len() implies #[trigger] key_map(s).contains_key(s[j].id.0) && key_map(s)[s[j].id.0] == s[j] by {
                    lemma_key_map_at(s, j);
                }
                assert(key_map(s) =~= key_map(old_s).remove(id.0)) by {
                    assert forall|x: u64| #[trigger] key_map(s).contains_key(x) <==> key_map(old_s).remove(id.0).contains_key(x) by {
                        if has_key(s, x) {
                            let j = choose|j: int| 0 <= j < s.len() && (#[trigger] s[j]).id.0 == x;
                            let oj = if j < i { j } else { j + 1 };
                            assert(s[j] == old_s[oj]);
                        }
                        if has_key(old_s, x) && x != id.0 {
                            let j = choose|j: int| 0 <= j < old_s.len() && (#[trigger] old_s[j]).id.0 == x;
                            let nj = if j < i { j } else { j - 1 };
                            assert(s[nj] == old_s[j]);
                        }
                    }
                }
                Some(c)
            },
        }
    }

    /// Whether an entry with `id` is present.
    pub fn contains(&self, id: ConnectionId) -> (r: bool)
        requires
            self.wf(),
        ensures
            r == self@.contains_key(id.0),
    {
        match self.find(id) {
            Some(i) => {
                proof {
                    lemma_key_map_at(self.connections@, i as int);
                }
                true
            },
            None => false,
        }
    }

    /// A copy of the entry with `id`, if any.
    pub fn get(&self, id: ConnectionId) -> (r: Option<Connection>)
        requires
            self.wf(),
        ensures
            r is Some <==> self@.contains_key(id.0),
            r is Some ==> r->Some_0.same_as(&self@[id.0]),
    {
        match self.find(id) {
            Some(i) => {
                proof {
                    lemma_key_map_at(self.connections@, i as int);
                }
                Some(self.connections[i].snapshot())
            },
            None => None,
        }
    }

    /// Number of entries.
    pub fn len(&self) -> (r: usize)
        requires
            self.wf(),
        ensures
            r == self@.dom().len(),
    {
        proof {
            lemma_dom_len(self.connections@);
        }
        self.connections.len()
    }

    /// Whether the pool has no entries.
    pub fn is_empty(&self) -> (r: bool)
        requires
            self.wf(),
        ensures
            r == (self@.dom().len() == 0),
    {
        self.len() == 0
    }

    /// The ids of all entries, each once.
    pub fn all_ids(&self) -> (r: Vec<ConnectionId>)
        requires
            self.wf(),
        ensures
            r@.len() == self@.dom().len(),
            forall|i: int| 0 <= i < r@.len() ==> self@.contains_key((#[trigger] r@[i]).0),
            forall|k: u64| self@.contains_key(k) ==> exists|i: int| 0 <= i < r@.len() && (#[trigger] r@[i]).0 == k,
    {
        let mut ids: Vec<ConnectionId> = Vec::new();
        let mut i: usize = 0;
        while i < self.connections.len()
            invariant
                i <= self.connections@.len(),
                ids@.len() == i,
                forall|j: int| 0 <= j < i ==> (#[trigger] ids@[j]).0 == self.connections@[j].id.0,
            decreases self.connections@.len() - i,
        {
            ids.push(self.connections[i].id);
            i = i + 1;
        }
        proof {
            lemma_dom_len(self.connections@);
            assert forall|j: int| 0 <= j < ids@.len() implies self@.contains_key((#[trigger] ids@[j]).0) by {
                lemma_key_map_at(self.connections@, j);
            }
            assert forall|k: u64| self@.contains_key(k) implies exists|j: int| 0 <= j < ids@.len() && (#[trigger] ids@[j]).0 == k by {
                let j = choose|j: int| 0 <= j < self.connections@.len() && (#[trigger] self.connections@[j]).id.0 == k;
                assert(ids@[j].0 == k);
            }
        }
        ids
    }

    /// Removes every connection idle for at least `timeout` at `now` and
    /// returns how many were removed. Afterwards no remaining connection is
    /// idle for `timeout` or more, the others are kept as they were, and the
    /// count is the drop in the number of entries.
    pub fn cleanup_idle(&mut self, timeout: u64, now: u64) -> (r: usize)
        requires
            old(self).wf(),
        ensures
            final(self).wf(),
            forall|k: u64|
                #[trigger] final(self)@.contains_key(k) <==> (old(self)@.contains_key(k) && !is_idle(
                    old(self)@[k],
                    timeout,
                    now,
                )),
            forall|k: u64| #[trigger] final(self)@.contains_key(k) ==> final(self)@[k] == old(self)@[k],
            forall|k: u64| #[trigger] final(self)@.contains_key(k) ==> !is_idle(final(self)@[k], timeout, now),
            r + final(self)@.dom().len() == old(self)@.dom().len(),
    {
        let n_old = self.connections.len();
        let ghost old_s = self.connections@;
        let ghost mut pos: Seq<int> = Seq::empty();
        let mut i: usize = self.connections.len();
        while i > 0
            invariant
                i <= self.connections@.len(),
                self.connections@.len() == i + pos.len(),
                i <= old_s.len(),
                pos.len() <= old_s.len() - i,
                old_s.len() == n_old,
                self.connections@.subrange(0, i as int) == old_s.subrange(0, i as int),
                forall|a: int| 0 <= a < pos.len() ==> i <= #[trigger] pos[a] < old_s.len(),
                forall|a: int, b: int| 0 <= a < b < pos.len() ==> #[trigger] pos[a] < #[trigger] pos[b],
                forall|a: int|
                    0 <= a < pos.len() ==> self.connections@[i + a] == old_s[#[trigger] pos[a]],
                forall|a: int| 0 <= a < pos.len() ==> !is_idle(old_s[#[trigger] pos[a]], timeout, now),
                forall|b: int|
                    i <= b < old_s.len() && !is_idle(#[trigger] old_s[b], timeout, now) ==> exists|a: int|
                        0 <= a < pos.len() && pos[a] == b,
            decreases i,
        {
            let ghost before = self.connections@;
            assert(before[i - 1] == old_s[i - 1]) by {
                assert(before.subrange(0, i as int)[i - 1] == old_s.subrange(0, i as int)[i - 1]);
            }
            let idle = self.connections[i - 1].idle_time(now) >= timeout;
            if idle {
                self.connections.remove(i - 1);
                proof {
                    assert(self.connections@.subrange(0, i - 1) =~= old_s.subrange(0, i - 1)) by {
                        assert forall|x: int| 0 <= x < i - 1 implies self.connections@[x] == old_s[x] by {
                            assert(before.subrange(0, i as int)[x] == old_s.subrange(0, i as int)[x]);
                        }
                    }
                    assert forall|a: int| 0 <= a < pos.len() implies self.connections@[(i - 1) + a] == old_s[#[trigger] pos[a]] by {
                        assert(before[i + a] == old_s[pos[a]]);
                    }
                }
            } else {
                proof {
                    let new_pos = seq![(i - 1) as int] + pos;
                    assert forall|a: int| 0 <= a < new_pos.len() implies self.connections@[(i - 1) + a] == old_s[#[trigger] new_pos[a]] by {
                        if a > 0 {
                            assert(new_pos[a] == pos[a - 1]);
                        }
                    }
                    assert forall|b: int|
                        (i - 1) <= b < old_s.len() && !is_idle(#[trigger] old_s[b], timeout, now) implies exists|a: int|
                        0 <= a < new_pos.len() && new_pos[a] == b by {
                        if b == i - 1 {
                            assert(new_pos[0] == b);
                        } else {
                            let a = choose|a: int| 0 <= a < pos.len() && pos[a] == b;
                            assert(new_pos[a + 1] == b);
                        }
                    }
                    assert forall|a: int, b: int| 0 <= a < b < new_pos.len() implies #[trigger] new_pos[a] < #[trigger] new_pos[b] by {
                        if a > 0 {
                            assert(new_pos[a] == pos[a - 1]);
                        }
                        assert(new_pos[b] == pos[b - 1]);
                    }
                    assert forall|a: int| 0 <= a < new_pos.len() implies !is_idle(old_s[#[trigger] new_pos[a]], timeout, now) by {
                        if a > 0 {
                            assert(new_pos[a] == pos[a - 1]);
                        }
                    }
                    assert forall|a: int| 0 <= a < new_pos.len() implies (i - 1) <= #[trigger] new_pos[a] < old_s.len() by {
                        if a > 0 {
                            assert(new_pos[a] == pos[a - 1]);
                        }
                    }
                    pos = new_pos;
                }
            }
            i = i - 1;
        }
        let ghost s = self.connections@;
        proof {
            assert forall|a: int| 0 <= a < s.len() implies s[a] == old_s[#[trigger] pos[a]] by {}
            assert(unique_ids(s)) by {
                assert forall|a: int, b: int|
                    0 <= a < s.len() && 0 <= b < s.len() && (#[trigger] s[a]).id.0 == (
                    #[trigger] s[b]).id.0 implies a == b by {
                    assert(s[a] == old_s[pos[a]]);
                    assert(s[b] == old_s[pos[b]]);
                    if a < b {
                        assert(pos[a] < pos[b]);
                    } else if b < a {
                        assert(pos[b] < pos[a]);
                    }
                }
            }
            assert forall|j: int| 0 <= j < s.len() implies #[trigger] key_map(s).contains_key(s[j].id.0) && key_map(s)[s[j].id.0] == s[j] by {
                lemma_key_map_at(s, j);
            }
            assert forall|j: int| 0 <= j < old_s.len() implies #[trigger] key_map(old_s).contains_key(old_s[j].id.0) && key_map(old_s)[old_s[j].id.0] == old_s[j] by {
                lemma_key_map_at(old_s, j);
            }
            assert forall|k: u64|
                #[trigger] key_map(s).contains_key(k) <==> (key_map(old_s).contains_key(k) && !is_idle(
                    key_map(old_s)[k],
                    timeout,
                    now,
                )) by {
                if has_key(s, k) {
                    let j = choose|j: int| 0 <= j < s.len() && (#[trigger] s[j]).id.0 == k;
                    assert(s[j] == old_s[pos[j]]);
                }
                if has_key(old_s, k) && !is_idle(key_map(old_s)[k], timeout, now) {
                    let b = choose|b: int| 0 <= b < old_s.len() && (#[trigger] old_s[b]).id.0 == k;
                    let a = choose|a: int| 0 <= a < pos.len() && pos[a] == b;
                    assert(s[a].id.0 == k);
                }
            }
            assert forall|k: u64| #[trigger] key_map(s).contains_key(k) implies key_map(s)[k] == key_map(old_s)[k] by {
                let j = choose|j: int| 0 <= j < s.len() && (#[trigger] s[j]).id.0 == k;
                assert(s[j] == old_s[pos[j]]);
            }
            lemma_dom_len(s);
            lemma_dom_len(old_s);
        }
        n_old - self.connections.len()
    }
}

impl Default for ConnectionPool {
    fn default() -> (r: ConnectionPool)
        ensures
            r.wf(),
            r@ == Map::<u64, Connection>::empty(),
    {
        ConnectionPool::new()
    }
}

} // verus!
