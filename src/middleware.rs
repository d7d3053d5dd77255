//! Middleware stacks and their onion order, and the reference middleware
//! settings.
use vstd::prelude::*;
use crate::error::AeroXError;

verus! {

/// An ordered list of middleware; the first added is the outermost.
pub struct Stack<M> {
    middlewares: Vec<M>,
}

/// The position in a built chain that a call of `next` continues at:
/// the layer at `depth`, or the final handler once every layer is passed.
#[derive(Debug, Clone, Copy, PartialEq, Eq, Structural)]
pub struct Next {
    pub depth: usize,
}

/// What a position in a chain leads to.
pub enum Step<'a, M, H> {
    /// A middleware, and the position its `next` continues at.
    Layer(&'a M, Next),
    /// The final handler.
    Handler(&'a H),
}

/// A stack built around a handler. It does not change once built.
pub struct Chain<M, H> {
    layers: Vec<M>,
    handler: H,
}

/// An event in the life of one request passing a chain.
#[derive(Debug, Clone, Copy, PartialEq, Eq, Structural)]
pub enum ChainEvent {
    /// The layer at this depth starts.
    Enter(usize),
    /// The final handler runs.
    Handler,
    /// The layer at this depth sees the outcome and returns it.
    Exit(usize),
}

/// The events of a request entering a chain of `n` layers at `depth`,
/// where the layer at depth `stop`, if any, returns without calling `next`.
pub open spec fn onion(n: nat, depth: nat, stop: Option<nat>) -> Seq<ChainEvent>
    decreases n - depth,
{
    if depth >= n {
        seq![ChainEvent::Handler]
    } else if stop == Some(depth) {
        seq![ChainEvent::Enter(depth as usize), ChainEvent::Exit(depth as usize)]
    } else {
        seq![ChainEvent::Enter(depth as usize)] + onion(n, depth + 1, stop) + seq![
            ChainEvent::Exit(depth as usize),
        ]
    }
}

impl<M> View for Stack<M> {
    type V = Seq<M>;

    closed spec fn view(&self) -> Seq<M> {
        self.middlewares@
    }
}

impl<M> Stack<M> {
    /// An empty stack.
    pub fn new() -> (r: Stack<M>)
        ensures
            r@ == Seq::<M>::empty(),
    {
        Stack { middlewares: Vec::new() }
    }

    /// Adds `middleware` inside all those added before.
    pub fn push(&mut self, middleware: M) -> (r: &mut Stack<M>)
        ensures
            (*r)@ == old(self)@.push(middleware),
            *final(self) == *final(r),
    {
        self.middlewares.push(middleware);
        self
    }

    /// Number of middleware.
    pub fn len(&self) -> (r: usize)
        ensures
            r == self@.len(),
    {
        self.middlewares.len()
    }

    /// Wraps `handler` in the stack: the first added middleware is entered first.
    pub fn build<H>(self, handler: H) -> (r: Chain<M, H>)
        ensures
            r@ == (self@, handler),
    {
        Chain { layers: self.middlewares, handler }
    }
}

impl<M, H> View for Chain<M, H> {
    type V = (Seq<M>, H);

    closed spec fn view(&self) -> (Seq<M>, H) {
        (self.layers@, self.handler)
    }
}

impl<M, H> Chain<M, H> {
    /// Where a request enters the chain.
    pub fn entry(&self) -> (r: Next)
        ensures
            r.depth == 0,
    {
        Next { depth: 0 }
    }

    /// What the position `next` leads to: the layer at its depth, whose own
    /// `next` is one deeper, or the handler once all layers are passed.
    pub fn step(&self, next: Next) -> (r: Step<'_, M, H>)
        requires
            next.depth <= self@.0.len(),
        ensures
            next.depth < self@.0.len() ==> (r matches Step::Layer(m, n) && *m == self@.0[next.depth as int]
                && n.depth == next.depth + 1),
            next.depth == self@.0.len() ==> (r matches Step::Handler(h) && *h == self@.1),
    {
        if next.depth < self.layers.len() {
            Step::Layer(&self.layers[next.depth], Next { depth: next.depth + 1 })
        } else {
            Step::Handler(&self.handler)
        }
    }

    /// Number of layers.
    pub fn depth(&self) -> (r: usize)
        ensures
            r == self@.0.len(),
    {
        self.layers.len()
    }

    /// The order of events for one request when the layer at `stop`, if
    /// any, returns without calling `next` and all others call it once.
    pub fn event_order(&self, stop: Option<usize>) -> (r: Vec<ChainEvent>)
        ensures
            r@ == onion(
                self@.0.len(),
                0,
                match stop {
                    Some(s) => Some(s as nat),
                    None => None,
                },
            ),
    {
        let n = self.layers.len();
        let ghost st = match stop {
            Some(s) => Some(s as nat),
            None => None::<nat>,
        };
        let mut entered: usize = 0;
        let mut events: Vec<ChainEvent> = Vec::new();
        let mut stopped = false;
        while entered < n && !stopped
            invariant
                entered <= n,
                n == self@.0.len(),
                st == match stop {
                    Some(s) => Some(s as nat),
                    None => None::<nat>,
                },
                stopped ==> entered > 0 && st == Some((entered - 1) as nat),
                !stopped ==> forall|d: nat| d < entered ==> st != Some(d),
                events@ == Seq::new(entered as nat, |i: int| ChainEvent::Enter(i as usize)),
            decreases n - entered + (if stopped { 0int } else { 1int }),
        {
            events.push(ChainEvent::Enter(entered));
            proof {
                assert(events@ =~= Seq::new((entered + 1) as nat, |i: int| ChainEvent::Enter(i as usize)));
            }
            match stop {
                Some(s) => {
                    if s == entered {
                        stopped = true;
                    }
                },
                None => {},
            }
            entered = entered + 1;
        }
        if !stopped {
            events.push(ChainEvent::Handler);
        }
        let ghost prefix = events@;
        let mut k: usize = entered;
        while k > 0
            invariant
                k <= entered,
                events@ == prefix + Seq::new((entered - k) as nat, |i: int| ChainEvent::Exit((entered - 1 - i) as usize)),
            decreases k,
        {
            k = k - 1;
            events.push(ChainEvent::Exit(k));
            proof {
                assert(events@ =~= prefix + Seq::new((entered - k) as nat, |i: int| ChainEvent::Exit((entered - 1 - i) as usize)));
            }
        }
        proof {
            lemma_onion_shape(n as nat, 0, st, entered as nat, stopped);
            assert(events@ =~= onion(n as nat, 0, st));
        }
        events
    }
}

/// The onion events from `depth`: enters down to `e`, then the handler
/// unless a layer stopped, then exits back up.
proof fn lemma_onion_shape(n: nat, depth: nat, stop: Option<nat>, e: nat, stopped: bool)
    requires
        depth <= e <= n,
        stopped ==> e > depth && stop == Some((e - 1) as nat),
        !stopped ==> e == n,
        forall|d: nat| depth <= d < (if stopped { e - 1 } else { e as int }) ==> stop != Some(d),
    ensures
        onion(n, depth, stop) =~= Seq::new((e - depth) as nat, |i: int| ChainEvent::Enter((depth + i) as usize))
            + (if stopped { Seq::<ChainEvent>::empty() } else { seq![ChainEvent::Handler] })
            + Seq::new((e - depth) as nat, |i: int| ChainEvent::Exit((e - 1 - i) as usize)),
    decreases n - depth,
{
    if depth >= n {
    } else if stop == Some(depth) {
        assert(stopped && e == depth + 1);
    } else {
        lemma_onion_shape(n, depth + 1, stop, e, stopped);
    }
}

/// Onion order: with a chain of two layers A (depth 0) and B (depth 1)
/// around H, a request enters A, then B, then H, and exits B, then A; when
/// B returns without calling `next`, H never runs and A still sees the
/// outcome, last. In general, when any layer stops, the handler does not
/// run and the outermost layer exits last.
pub proof fn lemma_onion_order(n: nat, b: nat)
    requires
        b < n,
    ensures
        onion(2, 0, None) == seq![
            ChainEvent::Enter(0),
            ChainEvent::Enter(1),
            ChainEvent::Handler,
            ChainEvent::Exit(1),
            ChainEvent::Exit(0),
        ],
        onion(2, 0, Some(1)) == seq![
            ChainEvent::Enter(0),
            ChainEvent::Enter(1),
            ChainEvent::Exit(1),
            ChainEvent::Exit(0),
        ],
        !onion(n, 0, Some(b)).contains(ChainEvent::Handler),
        onion(n, 0, Some(b)).last() == ChainEvent::Exit(0),
        onion(n, 0, Some(b))[0] == ChainEvent::Enter(0),
{
    assert(onion(2, 2, None) == seq![ChainEvent::Handler]);
    assert(onion(2, 1, None) =~= seq![ChainEvent::Enter(1), ChainEvent::Handler, ChainEvent::Exit(1)]);
    assert(onion(2, 0, None) =~= seq![
        ChainEvent::Enter(0),
        ChainEvent::Enter(1),
        ChainEvent::Handler,
        ChainEvent::Exit(1),
        ChainEvent::Exit(0),
    ]);
    assert(onion(2, 1, Some(1)) =~= seq![ChainEvent::Enter(1), ChainEvent::Exit(1)]);
    assert(onion(2, 0, Some(1)) =~= seq![
        ChainEvent::Enter(0),
        ChainEvent::Enter(1),
        ChainEvent::Exit(1),
        ChainEvent::Exit(0),
    ]);
    lemma_onion_shape(n, 0, Some(b), b + 1, true);
    let s = onion(n, 0, Some(b));
    assert forall|i: int| 0 <= i < s.len() implies s[i] != ChainEvent::Handler by {
        if i <= b {
            assert(s[i] == ChainEvent::Enter(i as usize));
        } else {
            assert(s[i] == ChainEvent::Exit((b - (i - (b + 1))) as usize));
        }
    }
}

/// Settings of the logging middleware.
#[derive(Debug, Clone, Default)]
pub struct LoggingMiddleware {
    pub verbose: bool,
}

impl LoggingMiddleware {
    /// Logs the message id and connection only.
    pub fn new() -> (r: LoggingMiddleware)
        ensures
            !r.verbose,
    {
        LoggingMiddleware { verbose: false }
    }

    /// Logs every field of the request.
    pub fn verbose() -> (r: LoggingMiddleware)
        ensures
            r.verbose,
    {
        LoggingMiddleware { verbose: true }
    }
}

/// A deadline on the rest of the chain, in milliseconds.
#[derive(Debug, Clone)]
pub struct TimeoutMiddleware {
    timeout_millis: u128,
}

impl TimeoutMiddleware {
    /// A deadline of `timeout_millis` milliseconds.
    pub fn new(timeout_millis: u128) -> (r: TimeoutMiddleware)
        ensures
            r.deadline_millis() == timeout_millis,
    {
        TimeoutMiddleware { timeout_millis }
    }

    /// The deadline in milliseconds.
    pub closed spec fn deadline_millis(&self) -> nat {
        self.timeout_millis as nat
    }

    /// A deadline of `millis` milliseconds.
    pub fn from_millis(millis: u64) -> (r: TimeoutMiddleware)
        ensures
            r.deadline_millis() == millis,
    {
        TimeoutMiddleware { timeout_millis: millis as u128 }
    }

    /// A deadline of `secs` seconds.
    pub fn from_secs(secs: u64) -> (r: TimeoutMiddleware)
        ensures
            r.deadline_millis() == secs * 1000,
    {
        TimeoutMiddleware { timeout_millis: secs as u128 * 1000 }
    }

    /// The deadline in milliseconds.
    pub fn timeout_millis(&self) -> (r: u128)
        ensures
            r == self.deadline_millis(),
    {
        self.timeout_millis
    }

    /// The result of the middleware: the inner result when the rest of the
    /// chain finished before the deadline (`Some`), else `Timeout`.
    pub fn outcome(&self, finished: Option<Result<(), AeroXError>>) -> (r: Result<(), AeroXError>)
        ensures
            finished is None ==> (r matches Err(e) && e is Timeout),
            finished matches Some(inner) ==> r == inner,
    {
        match finished {
            Some(inner) => inner,
            None => Err(AeroXError::Timeout),
        }
    }
}

} // verus!
