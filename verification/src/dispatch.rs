//! The per-connection dispatch pipeline: middleware chain execution with
//! short-circuiting and a stack of deferred post-hooks, followed by routing
//! and fallback selection.
//!
//! The library cannot invoke the embedding program's callbacks, so the
//! pipeline is driven step by step: `next_middleware` names the middleware
//! to invoke, the caller invokes it and hands the outcome to `record`, and
//! once the forward phase is over, `dispatch` selects the handler and
//! `pop_hook` yields the pending post-hooks most-recently-pushed first.

use crate::server::{lemma_resolution_is_unique, resolves_to, Method, Server};
use vstd::prelude::*;

verus! {

/// The indices of the middlewares whose outcome `(continued, had a hook)`
/// was `(true, true)`: those are the ones whose post-hook is pending, in
/// registration order. A middleware that halts the chain does not get its
/// hook pushed.
pub open spec fn hook_indices(d: Seq<(bool, bool)>) -> Seq<int>
    decreases d.len(),
{
    if d.len() == 0 {
        Seq::empty()
    } else if d.last().0 && d.last().1 {
        hook_indices(d.drop_last()).push(d.len() - 1)
    } else {
        hook_indices(d.drop_last())
    }
}

/// Every pending-hook index is in range, the indices are strictly
/// ascending (registration order), and an index is pending exactly when
/// its middleware continued and produced a hook.
pub proof fn lemma_hook_indices(d: Seq<(bool, bool)>)
    ensures
        forall|k: int|
            0 <= k < hook_indices(d).len() ==> 0 <= #[trigger] hook_indices(d)[k] < d.len(),
        forall|k1: int, k2: int|
            0 <= k1 < k2 < hook_indices(d).len() ==> hook_indices(d)[k1] < hook_indices(d)[k2],
        forall|i: int|
            0 <= i < d.len() ==> (hook_indices(d).contains(i) <==> (d[i].0 && d[i].1)),
    decreases d.len(),
{
    if d.len() > 0 {
        let prev = d.drop_last();
        let hi = hook_indices(d);
        let hp = hook_indices(prev);
        lemma_hook_indices(prev);
        assert(forall|i: int| 0 <= i < prev.len() ==> prev[i] == d[i]);
        if d.last().0 && d.last().1 {
            assert(hi == hp.push(d.len() - 1));
        } else {
            assert(hi == hp);
        }
        assert forall|k: int| 0 <= k < hi.len() implies 0 <= #[trigger] hi[k] < d.len() by {
            if k < hp.len() {
                assert(0 <= hp[k] < prev.len());
            } else {
                assert(hi[k] == d.len() - 1);
            }
        }
        assert forall|k1: int, k2: int| 0 <= k1 < k2 < hi.len() implies hi[k1] < hi[k2] by {
            if k2 < hp.len() {
                assert(hp[k1] < hp[k2]);
            } else {
                assert(hi[k2] == d.len() - 1);
                assert(0 <= hp[k1] < prev.len());
            }
        }
        assert forall|i: int| 0 <= i < d.len() implies (hi.contains(i) <==> (d[i].0 && d[i].1)) by {
            if i < prev.len() {
                assert(prev[i] == d[i]);
                if d[i].0 && d[i].1 {
                    assert(hp.contains(i));
                    let k = choose|k: int| 0 <= k < hp.len() && hp[k] == i;
                    assert(hi[k] == i);
                    assert(hi.contains(i));
                }
                if hi.contains(i) {
                    let k = choose|k: int| 0 <= k < hi.len() && hi[k] == i;
                    if k < hp.len() {
                        assert(hp[k] == i);
                        assert(hp.contains(i));
                        assert(prev[i].0 && prev[i].1);
                    } else {
                        assert(hi[k] == d.len() - 1);
                        assert(false);
                    }
                }
            } else {
                assert(i == d.len() - 1);
                assert(d[i] == d.last());
                if d[i].0 && d[i].1 {
                    assert(hi.last() == i);
                    assert(hi.contains(i));
                }
                if hi.contains(i) {
                    let k = choose|k: int| 0 <= k < hi.len() && hi[k] == i;
                    if !(d.last().0 && d.last().1) {
                        assert(hp[k] == i);
                        assert(0 <= hp[k] < prev.len());
                        assert(false);
                    }
                }
            }
        }
    }
}

/// One run of the middleware chain for one connection. `P` is the opaque
/// post-hook type the embedding program uses; the library only stacks the
/// hooks and hands them back in the right order.
pub struct ChainRun<P> {
    /// How many middlewares the chain holds.
    pub total: usize,
    /// The next middleware to invoke; equals the number already recorded.
    pub next: usize,
    /// Whether some middleware halted the chain.
    pub stopped: bool,
    /// Pending post-hooks as (middleware index, hook), in push order.
    pub hooks: Vec<(usize, P)>,
    /// The recorded outcomes `(continued, had a hook)`, in chain order.
    pub decisions: Ghost<Seq<(bool, bool)>>,
}

impl<P> ChainRun<P> {
    /// The run's bookkeeping is consistent with the recorded outcomes:
    /// outcomes exist exactly for the middlewares already invoked, only the
    /// last one may have halted the chain, and the pending hooks are those
    /// of the middlewares that continued and produced one.
    pub open spec fn wf(self) -> bool {
        &&& self.decisions@.len() == self.next
        &&& self.next <= self.total
        &&& (forall|i: int| 0 <= i < self.decisions@.len() - 1 ==> self.decisions@[i].0)
        &&& self.stopped == (self.decisions@.len() > 0 && !self.decisions@.last().0)
        &&& self.hooks@.len() == hook_indices(self.decisions@).len()
        &&& (forall|k: int|
            0 <= k < self.hooks@.len() ==> self.hooks@[k].0 as int == hook_indices(
                self.decisions@,
            )[k])
    }

    /// The forward phase ran every middleware and none halted the chain:
    /// only then is the request routed.
    pub open spec fn completed(self) -> bool {
        !self.stopped && self.next == self.total
    }

    /// A fresh run over a chain of `total` middlewares.
    pub fn new(total: usize) -> (c: ChainRun<P>)
        ensures
            c.wf(),
            c.total == total,
            c.next == 0,
            !c.stopped,
            c.hooks@.len() == 0,
            c.decisions@ =~= Seq::<(bool, bool)>::empty(),
    {
        ChainRun { total, next: 0, stopped: false, hooks: Vec::new(), decisions: Ghost(Seq::empty()) }
    }

    /// The index of the middleware to invoke next, or `None` once the chain
    /// has run out of middlewares or was halted.
    pub fn next_middleware(&self) -> (r: Option<usize>)
        ensures
            r == if !self.stopped && self.next < self.total {
                Some(self.next)
            } else {
                None::<usize>
            },
    {
        if !self.stopped && self.next < self.total {
            Some(self.next)
        } else {
            None
        }
    }

    /// Records the outcome of invoking the next middleware: whether it let
    /// the chain continue, and its post-hook if it offered one. A halting
    /// middleware's own hook is discarded; the hooks pushed earlier stay.
    pub fn record(&mut self, continued: bool, hook: Option<P>)
        requires
            old(self).wf(),
            !old(self).stopped,
            old(self).next < old(self).total,
        ensures
            final (self).wf(),
            final (self).total == old(self).total,
            final (self).next == old(self).next + 1,
            final (self).stopped == !continued,
            final (self).decisions@ == old(self).decisions@.push((continued, hook.is_some())),
            continued && hook.is_some() ==> final (self).hooks@ == old(self).hooks@.push(
                (old(self).next, hook.unwrap()),
            ),
            !(continued && hook.is_some()) ==> final (self).hooks == old(self).hooks,
    {
        let ghost d = self.decisions@.push((continued, hook.is_some()));
        if continued {
            if let Some(h) = hook {
                self.hooks.push((self.next, h));
            }
        } else {
            self.stopped = true;
        }
        self.next += 1;
        proof {
            self.decisions@ = d;
            assert(d.drop_last() =~= old(self).decisions@);
            assert(d.last() == (continued, hook.is_some()));
        }
    }

    /// Whether the request may proceed to routing: true exactly when every
    /// middleware ran and none halted the chain.
    pub fn route_allowed(&self) -> (r: bool)
        ensures
            r == self.completed(),
    {
        !self.stopped && self.next == self.total
    }

    /// Pops the most recently pushed pending post-hook, with the index of
    /// the middleware that produced it. Repeated calls therefore yield the
    /// hooks in strictly reverse registration order.
    pub fn pop_hook(&mut self) -> (r: Option<(usize, P)>)
        ensures
            old(self).hooks@.len() == 0 ==> r.is_none() && final (self).hooks@ == old(self).hooks@,
            old(self).hooks@.len() > 0 ==> r == Some(old(self).hooks@.last()) && final (self).hooks@
                == old(self).hooks@.drop_last(),
            final (self).total == old(self).total,
            final (self).next == old(self).next,
            final (self).stopped == old(self).stopped,
            final (self).decisions == old(self).decisions,
    {
        self.hooks.pop()
    }
}

/// What the dispatcher decided for one connection once the forward phase
/// of the middleware chain is over.
#[derive(Clone, Copy, PartialEq, Eq, Structural, Debug)]
pub enum Outcome {
    /// Route the request to the handler at this index of the method's table.
    Handler(usize),
    /// No route matched; the registered fallback handler runs.
    Fallback,
    /// No route matched and no fallback handler is registered; the request
    /// gets no application-level handling.
    Unhandled,
    /// A middleware halted the chain: no route handler and no fallback
    /// handler runs at all.
    ShortCircuited,
}

/// What the dispatcher may decide for a request: nothing past the
/// middlewares when the chain was halted; otherwise the first route of the
/// method's table whose pattern equals the path, the fallback handler when
/// no route matches, or nothing when no fallback is registered either.
pub open spec fn dispatch_allows<M, H>(
    server: Server<M, H>,
    chain_completed: bool,
    method: Method,
    path: Seq<char>,
    o: Outcome,
) -> bool {
    if !chain_completed {
        o == Outcome::ShortCircuited
    } else {
        match o {
            Outcome::Handler(i) => resolves_to(server.routes_of(method), path, Some(i)),
            Outcome::Fallback => server.catchs.is_some() && resolves_to(
                server.routes_of(method),
                path,
                None,
            ),
            Outcome::Unhandled => server.catchs.is_none() && resolves_to(
                server.routes_of(method),
                path,
                None,
            ),
            Outcome::ShortCircuited => false,
        }
    }
}

/// Selects what runs for the request, as `dispatch_allows` describes.
pub fn dispatch<M, H, P>(
    server: &Server<M, H>,
    chain: &ChainRun<P>,
    method: Method,
    path: &String,
) -> (o: Outcome)
    ensures
        dispatch_allows(*server, chain.completed(), method, path@, o),
{
    if !chain.route_allowed() {
        return Outcome::ShortCircuited;
    }
    match server.resolve(method, path) {
        Some(i) => Outcome::Handler(i),
        None => {
            if server.catchs.is_some() {
                Outcome::Fallback
            } else {
                Outcome::Unhandled
            }
        },
    }
}

/// A middleware that reported `continue = false` makes the short-circuit
/// absolute: the chain cannot reach the routing phase, while every post-hook
/// pushed by the middlewares that ran before it is still pending.
pub proof fn lemma_short_circuit_is_absolute<P>(c: ChainRun<P>, i: int)
    requires
        c.wf(),
        0 <= i < c.decisions@.len(),
        !c.decisions@[i].0,
    ensures
        !c.completed(),
        forall|j: int|
            0 <= j < i && c.decisions@[j].0 && c.decisions@[j].1 ==> exists|k: int|
                0 <= k < c.hooks@.len() && #[trigger] c.hooks@[k].0 as int == j,
{
    assert(i == c.decisions@.len() - 1);
    lemma_hook_indices(c.decisions@);
    assert forall|j: int| 0 <= j < i && c.decisions@[j].0 && c.decisions@[j].1 implies exists|
        k: int,
    |
        0 <= k < c.hooks@.len() && #[trigger] c.hooks@[k].0 as int == j by {
        assert(hook_indices(c.decisions@).contains(j));
        let k = choose|k: int|
            0 <= k < hook_indices(c.decisions@).len() && hook_indices(c.decisions@)[k] == j;
        assert(c.hooks@[k].0 as int == j);
    }
}

/// Post-hooks run in strictly reverse registration order: popping the hook
/// stack yields middleware indices that strictly decrease, and the `k`-th
/// hook popped belongs to the `k`-th pending middleware counted from the
/// back of the chain.
pub proof fn lemma_post_hooks_reverse_order<P>(c: ChainRun<P>)
    requires
        c.wf(),
    ensures
        forall|k1: int, k2: int|
            0 <= k1 < k2 < c.hooks@.len() ==> c.hooks@[k1].0 < c.hooks@[k2].0,
        forall|k: int|
            0 <= k < c.hooks@.len() ==> c.hooks@[k].0 as int == hook_indices(c.decisions@)[k],
{
    lemma_hook_indices(c.decisions@);
    assert forall|k1: int, k2: int| 0 <= k1 < k2 < c.hooks@.len() implies c.hooks@[k1].0
        < c.hooks@[k2].0 by {
        assert(c.hooks@[k1].0 as int == hook_indices(c.decisions@)[k1]);
        assert(c.hooks@[k2].0 as int == hook_indices(c.decisions@)[k2]);
        assert(hook_indices(c.decisions@)[k1] < hook_indices(c.decisions@)[k2]);
    }
}

/// Dispatch is a function of the configuration, the chain's completion and
/// the request: the dispatcher's contract admits exactly one outcome.
pub proof fn lemma_dispatch_is_unique<M, H>(
    server: Server<M, H>,
    chain_completed: bool,
    method: Method,
    path: Seq<char>,
    o1: Outcome,
    o2: Outcome,
)
    requires
        dispatch_allows(server, chain_completed, method, path, o1),
        dispatch_allows(server, chain_completed, method, path, o2),
    ensures
        o1 == o2,
{
    if chain_completed {
        let r1 = match o1 {
            Outcome::Handler(i) => Some(i),
            _ => None,
        };
        let r2 = match o2 {
            Outcome::Handler(i) => Some(i),
            _ => None,
        };
        lemma_resolution_is_unique(server.routes_of(method), path, r1, r2);
    }
}

/// For a path no pattern of the method's table equals, a completed chain
/// reaches the fallback handler exactly when one was registered — and in
/// no case a route handler.
pub proof fn lemma_unmatched_uses_fallback_iff_registered<M, H>(
    server: Server<M, H>,
    method: Method,
    path: Seq<char>,
    o: Outcome,
)
    requires
        dispatch_allows(server, true, method, path, o),
        forall|j: int|
            0 <= j < server.routes_of(method).len() ==> server.routes_of(method)[j].0@ != path,
    ensures
        o == if server.catchs.is_some() {
            Outcome::Fallback
        } else {
            Outcome::Unhandled
        },
{
    match o {
        Outcome::Handler(i) => {
            assert(server.routes_of(method)[i as int].0@ != path);
        },
        _ => {},
    }
}

} // verus!
