use vstd::prelude::*;
use crate::error::Error;

verus! {

/// An owned handle to a reusable connection-capable resource. At any
/// moment a transport is owned by exactly one of: the pool's idle
/// list, or a single in-flight stream. The type is deliberately not
/// `Clone`: ownership moves, it is never duplicated.
#[derive(Debug, PartialEq, Eq, Structural)]
pub struct Transport {
    /// Identifies the underlying connection resource; distinct live
    /// transports always carry distinct ids.
    pub id: u64,
}

/// The idle-transport list, plus the bookkeeping that governs lazy
/// creation and the optional cap on the number of transports.
pub struct Pool {
    /// Transports not currently checked out, most recently returned last.
    pub idle: Vec<Transport>,
    /// How many transports this pool has ever created; doubles as the
    /// next fresh transport id.
    pub created: u64,
    /// An optional cap: once `created` reaches it, checkout of a fresh
    /// transport is refused rather than allocated.
    pub max_transports: Option<u64>,
}

impl Pool {
    /// Idle transports are pairwise distinct and were all created by
    /// this pool.
    pub open spec fn wf(self) -> bool {
        &&& forall|i: int, j: int|
            0 <= i < j < self.idle@.len() ==> #[trigger] self.idle@[i].id != #[trigger] self.idle@[j].id
        &&& forall|i: int| 0 <= i < self.idle@.len() ==> #[trigger] self.idle@[i].id < self.created
    }

    /// May this pool still create a transport?
    pub open spec fn under_cap(self) -> bool {
        match self.max_transports {
            Option::None => true,
            Option::Some(m) => self.created < m,
        }
    }

    /// An empty pool: no idle transports, none created yet.
    pub fn new(max_transports: Option<u64>) -> (p: Pool)
        ensures
            p.wf(),
            p.idle@.len() == 0,
            p.created == 0u64,
            p.max_transports == max_transports,
    {
        Pool { idle: Vec::new(), created: 0, max_transports }
    }

    /// Exactly how one checkout changes a pool: an idle transport is
    /// popped if there is one; otherwise a fresh one is created when
    /// the cap allows; otherwise nothing is handed out.
    pub open spec fn acquire_step(pre: Pool, post: Pool, r: Option<Transport>) -> bool {
        &&& post.max_transports == pre.max_transports
        &&& if pre.idle@.len() > 0 {
            &&& r == Option::Some(pre.idle@.last())
            &&& post.idle@ == pre.idle@.drop_last()
            &&& post.created == pre.created
        } else if pre.under_cap() {
            &&& r == Option::Some(Transport { id: pre.created })
            &&& post.idle@ == pre.idle@
            &&& post.created == pre.created + 1
        } else {
            &&& r is None
            &&& post.idle@ == pre.idle@
            &&& post.created == pre.created
        }
    }

    /// Check a transport out: pop an idle one, or create a fresh one
    /// when none is idle and the cap allows; `None` means the cap was
    /// hit. Whatever is handed out is in no idle list any more.
    pub fn acquire(&mut self) -> (r: Option<Transport>)
        requires
            old(self).wf(),
            old(self).created < u64::MAX,
        ensures
            final(self).wf(),
            Pool::acquire_step(*old(self), *final(self), r),
            r matches Some(t) ==> forall|i: int|
                0 <= i < final(self).idle@.len() ==> #[trigger] final(self).idle@[i].id != t.id,
    {
        match self.idle.pop() {
            Option::Some(t) => Option::Some(t),
            Option::None => {
                let can_create = match self.max_transports {
                    Option::None => true,
                    Option::Some(m) => self.created < m,
                };
                if can_create {
                    let t = Transport { id: self.created };
                    self.created = self.created + 1;
                    Option::Some(t)
                } else {
                    Option::None
                }
            },
        }
    }

    /// The `n` transports a preload appends: fresh ids counted off
    /// from `first`, in creation order.
    pub open spec fn fresh_batch(first: u64, n: int) -> Seq<Transport> {
        Seq::new(n as nat, |j: int| Transport { id: (first + j) as u64 })
    }

    /// Create `n` fresh transports directly into the idle list, ahead
    /// of any checkout: exactly the transports with the next `n` ids,
    /// appended in creation order.
    pub fn preload(&mut self, n: usize)
        requires
            old(self).wf(),
            old(self).created + n <= u64::MAX,
        ensures
            final(self).wf(),
            final(self).idle@ == old(self).idle@ + Pool::fresh_batch(old(self).created, n as int),
            final(self).created == old(self).created + n,
            final(self).max_transports == old(self).max_transports,
    {
        proof {
            assert(self.idle@ =~= old(self).idle@ + Pool::fresh_batch(old(self).created, 0));
        }
        let mut k: usize = 0;
        while k < n
            invariant
                k <= n,
                self.wf(),
                old(self).created + n <= u64::MAX,
                self.idle@ == old(self).idle@ + Pool::fresh_batch(old(self).created, k as int),
                self.created == old(self).created + k,
                self.max_transports == old(self).max_transports,
            decreases n - k,
        {
            let t = Transport { id: self.created };
            self.created = self.created + 1;
            let ghost prev = *self;
            self.idle.push(t);
            proof {
                assert forall|a: int, b: int|
                    0 <= a < b < self.idle@.len() implies #[trigger] self.idle@[a].id
                    != #[trigger] self.idle@[b].id by {
                    if b < prev.idle@.len() {
                        assert(self.idle@[a] == prev.idle@[a]);
                        assert(self.idle@[b] == prev.idle@[b]);
                    } else {
                        assert(self.idle@[b] == t);
                        assert(self.idle@[a] == prev.idle@[a]);
                    }
                }
                assert(self.idle@ =~= old(self).idle@ + Pool::fresh_batch(
                    old(self).created,
                    k + 1,
                ));
            }
            k += 1;
        }
    }

    /// Hand a checked-out transport back to the idle list.
    ///
    /// The caller vouches that the transport is genuinely checked out
    /// of this pool: created by it and not currently idle. That is
    /// `Transport`'s exclusive-ownership contract.
    pub fn release(&mut self, t: Transport)
        requires
            old(self).wf(),
            t.id < old(self).created,
            forall|i: int| 0 <= i < old(self).idle@.len() ==> #[trigger] old(self).idle@[i].id != t.id,
        ensures
            final(self).wf(),
            final(self).idle@ == old(self).idle@.push(t),
            final(self).created == old(self).created,
            final(self).max_transports == old(self).max_transports,
    {
        self.idle.push(t);
    }
}

/// Holds the transport that backs one response's body, and returns it
/// to the pool exactly once: on full consumption or on early teardown,
/// whichever comes first.
pub struct Stream {
    /// The checked-out transport, until it has been given back.
    pub transport: Option<Transport>,
}

impl Stream {
    /// Wrap a freshly checked-out transport.
    pub fn new(t: Transport) -> (s: Stream)
        ensures
            s.transport == Option::Some(t),
    {
        Stream { transport: Option::Some(t) }
    }

    /// May this stream's transport be pushed back into `p`? True when
    /// the stream either holds nothing, or holds a transport that `p`
    /// created and does not currently hold.
    pub open spec fn can_return_to(self, p: Pool) -> bool {
        match self.transport {
            Option::Some(t) => t.id < p.created && forall|i: int|
                0 <= i < p.idle@.len() ==> #[trigger] p.idle@[i].id != t.id,
            Option::None => true,
        }
    }

    /// Exactly how returning a stream's transport changes the stream
    /// and the pool: one push on the first return, nothing afterwards.
    pub open spec fn finish_step(s_pre: Stream, p_pre: Pool, s_post: Stream, p_post: Pool) -> bool {
        &&& s_post.transport is None
        &&& p_post.created == p_pre.created
        &&& p_post.max_transports == p_pre.max_transports
        &&& match s_pre.transport {
            Option::Some(t) => p_post.idle@ == p_pre.idle@.push(t),
            Option::None => p_post.idle@ == p_pre.idle@,
        }
    }

    /// Return the transport to the pool. Idempotent: only the first
    /// call moves anything; afterwards the stream is empty and the
    /// pool is untouched.
    pub fn finish(&mut self, pool: &mut Pool)
        requires
            old(pool).wf(),
            old(self).can_return_to(*old(pool)),
        ensures
            final(pool).wf(),
            Stream::finish_step(*old(self), *old(pool), *final(self), *final(pool)),
    {
        match self.transport.take() {
            Option::Some(t) => pool.release(t),
            Option::None => {},
        }
    }

    /// Tear the stream down after its pool is already gone: the
    /// transport, if still held, is silently discarded.
    pub fn discard(&mut self)
        ensures
            final(self).transport is None,
    {
        self.transport = Option::None;
    }
}

/// At most one owner: two consecutive checkouts can never hand out the
/// same transport, so no two streams ever hold one transport at once.
pub proof fn lemma_at_most_one_owner(
    p0: Pool,
    p1: Pool,
    p2: Pool,
    t1: Transport,
    t2: Transport,
)
    requires
        p0.wf(),
        Pool::acquire_step(p0, p1, Option::Some(t1)),
        Pool::acquire_step(p1, p2, Option::Some(t2)),
    ensures
        t1.id != t2.id,
{
    if p0.idle@.len() > 0 {
        assert(t1 == p0.idle@.last());
        if p1.idle@.len() > 0 {
            assert(p1.idle@[p1.idle@.len() - 1] == p0.idle@[p0.idle@.len() - 2]);
        }
    }
}

/// A transport is returned exactly once per checkout: running the
/// return step twice from any starting point pushes the transport a
/// single time, and the second run changes nothing.
pub proof fn lemma_release_exactly_once(
    s0: Stream,
    p0: Pool,
    s1: Stream,
    p1: Pool,
    s2: Stream,
    p2: Pool,
    t: Transport,
)
    requires
        s0.transport == Option::Some(t),
        Stream::finish_step(s0, p0, s1, p1),
        Stream::finish_step(s1, p1, s2, p2),
    ensures
        p1.idle@ == p0.idle@.push(t),
        p2.idle@ == p1.idle@,
        p2.idle@ == p0.idle@.push(t),
{
}

/// A fresh checkout against an exhausted idle list creates exactly one
/// new transport, and returning it restores the pool to one idle
/// transport which the next checkout reuses without creating another.
pub proof fn lemma_create_then_reuse(
    p0: Pool,
    p1: Pool,
    p2: Pool,
    p3: Pool,
    t1: Transport,
    t2: Transport,
    s0: Stream,
    s1: Stream,
)
    requires
        p0.wf(),
        p0.idle@.len() == 0,
        p0.under_cap(),
        Pool::acquire_step(p0, p1, Option::Some(t1)),
        s0.transport == Option::Some(t1),
        Stream::finish_step(s0, p1, s1, p2),
        Pool::acquire_step(p2, p3, Option::Some(t2)),
    ensures
        p1.created == p0.created + 1,
        p2.idle@.len() == 1,
        t2 == t1,
        p3.created == p2.created,
{
    assert(p2.idle@ == p1.idle@.push(t1));
    assert(p2.idle@.last() == t1);
}

} // verus!
