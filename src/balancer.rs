//! Round-robin choice of the worker that takes the next connection.
use vstd::prelude::*;

verus! {

/// Picks workers in turn: the `n`-th call picks worker `n mod W`.
pub struct ConnectionBalancer {
    worker_count: usize,
    current: usize,
    issued: Ghost<nat>,
}

/// How many of the picks number `start .. start + n` land on worker `j`
/// among `w` workers.
pub open spec fn picks_of(start: nat, n: nat, w: nat, j: nat) -> nat
    decreases n,
{
    if n == 0 {
        0
    } else {
        picks_of(start, (n - 1) as nat, w, j) + if ((start + n - 1) as int) % (w as int) == j {
            1nat
        } else {
            0nat
        }
    }
}

impl ConnectionBalancer {
    /// The number of picks made so far.
    pub closed spec fn issued(&self) -> nat {
        self.issued@
    }

    /// The number of workers.
    pub closed spec fn workers(&self) -> nat {
        self.worker_count as nat
    }

    /// The cursor agrees with the number of picks.
    pub closed spec fn wf(&self) -> bool {
        &&& self.worker_count > 0
        &&& self.current as nat == self.issued@ % (self.worker_count as nat)
    }

    /// A balancer over `worker_count` workers; there must be at least one.
    pub fn new(worker_count: usize) -> (r: ConnectionBalancer)
        requires
            worker_count > 0,
        ensures
            r.wf(),
            r.workers() == worker_count,
            r.issued() == 0,
    {
        proof {
            vstd::arithmetic::div_mod::lemma_small_mod(0, worker_count as nat);
        }
        ConnectionBalancer { worker_count, current: 0, issued: Ghost(0) }
    }

    /// The worker for the next connection.
    pub fn next_worker(&mut self) -> (r: usize)
        requires
            old(self).wf(),
        ensures
            final(self).wf(),
            final(self).workers() == old(self).workers(),
            final(self).issued() == old(self).issued() + 1,
            r == old(self).issued() % old(self).workers(),
            r < old(self).workers(),
    {
        let r = self.current;
        let w = self.worker_count;
        if self.current + 1 == self.worker_count {
            self.current = 0;
        } else {
            self.current = self.current + 1;
        }
        let ghost n = self.issued@;
        self.issued = Ghost(n + 1);
        proof {
            lemma_mod_step(n, w as nat);
        }
        r
    }

    /// The number of workers.
    pub fn worker_count(&self) -> (r: usize)
        ensures
            r == self.workers(),
    {
        self.worker_count
    }
}

proof fn lemma_mod_step(n: nat, w: nat)
    requires
        w > 0,
    ensures
        (n + 1) % w == if n % w + 1 == w { 0 } else { n % w + 1 },
{
    let q = (n as int) / (w as int);
    let r = (n as int) % (w as int);
    vstd::arithmetic::div_mod::lemma_fundamental_div_mod(n as int, w as int);
    assert(n + 1 == q * w + (r + 1)) by (nonlinear_arith)
        requires
            n == w * q + r,
    ;
    if r + 1 == w {
        assert(n + 1 == (q + 1) * w + 0) by (nonlinear_arith)
            requires
                n + 1 == q * w + (r + 1),
                r + 1 == w,
        ;
        vstd::arithmetic::div_mod::lemma_fundamental_div_mod_converse(
            (n + 1) as int,
            w as int,
            q + 1,
            0,
        );
    } else {
        vstd::arithmetic::div_mod::lemma_fundamental_div_mod_converse(
            (n + 1) as int,
            w as int,
            q,
            r + 1,
        );
    }
}

/// Picks within one block of `w` consecutive numbers land once on each worker.
proof fn lemma_block(start: nat, w: nat, j: nat)
    requires
        w > 0,
        j < w,
    ensures
        picks_of(start, w, w, j) == 1,
    decreases start,
{
    if start == 0 {
        lemma_prefix(w, j, w);
    } else {
        let s = (start - 1) as nat;
        lemma_block(s, w, j);
        lemma_shift(s, w, w, j);
        vstd::arithmetic::div_mod::lemma_mod_add_multiples_vanish(s as int, w as int);
        assert(((s + w) as int) % (w as int) == (s as int) % (w as int));
    }
}

/// Moving a window of `n` picks forward by one drops pick `start` and adds
/// pick `start + n`.
proof fn lemma_shift(start: nat, n: nat, w: nat, j: nat)
    requires
        w > 0,
    ensures
        picks_of(start + 1, n, w, j) + (if (start as int) % (w as int) == j { 1nat } else { 0nat }) == picks_of(
            start,
            n,
            w,
            j,
        ) + (if ((start + n) as int) % (w as int) == j { 1nat } else { 0nat }),
    decreases n,
{
    if n > 0 {
        lemma_shift(start, (n - 1) as nat, w, j);
    }
}

/// Among the picks `0 .. n` with `n <= w`, worker `j` is picked once if `j < n`.
proof fn lemma_prefix(n: nat, j: nat, w: nat)
    requires
        w > 0,
        n <= w,
    ensures
        picks_of(0, n, w, j) == if j < n { 1nat } else { 0nat },
    decreases n,
{
    if n > 0 {
        lemma_prefix((n - 1) as nat, j, w);
        vstd::arithmetic::div_mod::lemma_small_mod((n - 1) as nat, w);
    }
}

proof fn lemma_split(start: nat, a: nat, b: nat, w: nat, j: nat)
    ensures
        picks_of(start, a + b, w, j) == picks_of(start, a, w, j) + picks_of(start + a, b, w, j),
    decreases b,
{
    if b > 0 {
        lemma_split(start, a, (b - 1) as nat, w, j);
        assert(start + (a + b) - 1 == (start + a) + b - 1);
    }
}

/// Fairness: over `k * w` consecutive picks among `w` workers, from any
/// starting point, each worker is picked exactly `k` times.
pub proof fn lemma_fair(start: nat, w: nat, k: nat, j: nat)
    requires
        w > 0,
        j < w,
    ensures
        picks_of(start, k * w, w, j) == k,
    decreases k,
{
    if k > 0 {
        let k1 = (k - 1) as nat;
        assert(k * w == k1 * w + w) by (nonlinear_arith)
            requires
                k1 == k - 1,
        ;
        lemma_fair(start, w, k1, j);
        lemma_split(start, k1 * w, w, w, j);
        lemma_block(start + k1 * w, w, j);
        assert(picks_of(start, k1 * w + w, w, j) == k);
    } else {
        assert(k * w == 0) by (nonlinear_arith)
            requires
                k == 0,
        ;
    }
}

} // verus!
