use vstd::prelude::*;
use crate::buffer::LOW_WATER_MARK;
use crate::transfer::TransferState;

verus! {

/// The reactor's fallback wait bound when the engine recommends none.
pub const DEFAULT_TIMEOUT_MS: u64 = 1000;

/// Identifies one active transfer inside the reactor. The slot index
/// may be recycled after the transfer completes, but the id never is:
/// a late command carrying a stale token can always be told apart from
/// the slot's current occupant. Callers should treat tokens as opaque.
#[derive(Clone, Copy, Debug, PartialEq, Eq, Structural)]
pub struct Token {
    pub slot: usize,
    pub id: u64,
}

/// One slot of the transfer table: the id of its current (or last)
/// occupant, and whether that occupant is still active.
#[derive(Clone, Copy, Debug, PartialEq, Eq, Structural)]
pub struct Slot {
    pub id: u64,
    pub active: bool,
}

/// A command for the reactor, observed in the order it was enqueued.
/// `Begin` registers a new transfer (the submitting side keeps its
/// descriptor and pairs it with the returned token); `Unpause` asks
/// the reactor to resume a paused transfer.
#[derive(Clone, Copy, Debug, PartialEq, Eq, Structural)]
pub enum Message {
    Begin,
    Unpause(Token),
}

/// What the reactor must now do for one command: register the engine
/// descriptor under a fresh token, resume delivery on a slot, or
/// nothing, because the command named a transfer that is gone.
#[derive(Clone, Copy, Debug, PartialEq, Eq, Structural)]
pub enum Action {
    Started(Token),
    Resume(usize),
    Stale,
}

/// The reactor's bookkeeping for active transfers: a slot table with
/// recycling, and a never-recycled id counter. The reactor thread is
/// the only owner; everyone else talks to it through `Message`s.
pub struct Manager {
    pub slots: Vec<Slot>,
    pub next_id: u64,
}

/// The index of the first inactive slot, or `s.len()` when all are
/// active and the table must grow.
pub open spec fn first_vacant(s: Seq<Slot>) -> int
    decreases s.len(),
{
    if s.len() == 0 {
        0
    } else if !s[0].active {
        0
    } else {
        1 + first_vacant(s.drop_first())
    }
}

/// `first_vacant` is the least inactive index.
pub proof fn lemma_first_vacant(s: Seq<Slot>)
    ensures
        0 <= first_vacant(s) <= s.len(),
        first_vacant(s) < s.len() ==> !s[first_vacant(s)].active,
        forall|j: int| 0 <= j < first_vacant(s) ==> s[j].active,
    decreases s.len(),
{
    if s.len() > 0 && s[0].active {
        let t = s.drop_first();
        lemma_first_vacant(t);
        assert(forall|j: int| 0 <= j < t.len() ==> #[trigger] t[j] == s[j + 1]);
        assert forall|j: int| 0 <= j < first_vacant(s) implies s[j].active by {
            if j > 0 {
                assert(t[j - 1].active);
            }
        }
    }
}

impl Manager {
    /// Every slot id was issued before the counter's current value.
    pub open spec fn wf(self) -> bool {
        forall|i: int| 0 <= i < self.slots@.len() ==> #[trigger] self.slots@[i].id < self.next_id
    }

    /// Does this token still name an active transfer? Both the slot
    /// and the never-recycled id must match.
    pub open spec fn token_active(self, t: Token) -> bool {
        &&& t.slot < self.slots@.len()
        &&& self.slots@[t.slot as int].active
        &&& self.slots@[t.slot as int].id == t.id
    }

    /// Exactly how registering one transfer changes the table: the
    /// first vacant slot (or a fresh one) is taken by a token whose id
    /// is the counter's current value, and nothing else moves.
    pub open spec fn begin_step(pre: Manager, post: Manager, t: Token) -> bool {
        let v = first_vacant(pre.slots@);
        &&& t.id == pre.next_id
        &&& t.slot as int == v
        &&& post.next_id == pre.next_id + 1
        &&& post.slots@.len() == if v < pre.slots@.len() {
            pre.slots@.len() as int
        } else {
            pre.slots@.len() + 1 as int
        }
        &&& forall|i: int|
            0 <= i < pre.slots@.len() && i != v ==> post.slots@[i] == #[trigger] pre.slots@[i]
        &&& post.slots@[v] == (Slot { id: t.id, active: true })
    }

    /// Exactly how completing one transfer changes the table: when the
    /// token is live its slot is deactivated (the id stays behind) and
    /// nothing else moves; a dead token changes nothing.
    pub open spec fn complete_step(pre: Manager, post: Manager, t: Token, r: bool) -> bool {
        &&& r == pre.token_active(t)
        &&& post.next_id == pre.next_id
        &&& post.slots@.len() == pre.slots@.len()
        &&& if r {
            &&& forall|i: int|
                0 <= i < pre.slots@.len() && i != t.slot as int ==> post.slots@[i]
                    == #[trigger] pre.slots@[i]
            &&& post.slots@[t.slot as int] == (Slot { id: t.id, active: false })
        } else {
            post.slots@ == pre.slots@
        }
    }

    /// An empty transfer table.
    pub fn new() -> (m: Manager)
        ensures
            m.wf(),
            m.slots@.len() == 0,
            m.next_id == 0u64,
    {
        Manager { slots: Vec::new(), next_id: 0 }
    }

    /// Register a new transfer: assign it the first vacant slot and a
    /// fresh id, and return its token.
    pub fn begin(&mut self) -> (t: Token)
        requires
            old(self).wf(),
            old(self).next_id < u64::MAX,
            old(self).slots@.len() < usize::MAX,
        ensures
            final(self).wf(),
            Manager::begin_step(*old(self), *final(self), t),
            final(self).token_active(t),
    {
        proof {
            lemma_first_vacant(self.slots@);
        }
        let id = self.next_id;
        self.next_id = self.next_id + 1;
        let n = self.slots.len();
        let mut i: usize = 0;
        while i < n
            invariant
                old(self).wf(),
                old(self).next_id < u64::MAX,
                i <= n,
                n == self.slots@.len(),
                self.slots@ == old(self).slots@,
                self.next_id == old(self).next_id + 1,
                id == old(self).next_id,
                forall|j: int| 0 <= j < i ==> #[trigger] self.slots@[j].active,
            decreases n - i,
        {
            if !self.slots[i].active {
                proof {
                    lemma_first_vacant(old(self).slots@);
                }
                self.slots.set(i, Slot { id, active: true });
                proof {
                    assert forall|j: int|
                        0 <= j < self.slots@.len() implies #[trigger] self.slots@[j].id
                        < self.next_id by {
                        if j != i {
                            assert(self.slots@[j] == old(self).slots@[j]);
                        }
                    }
                }
                return Token { slot: i, id };
            }
            i += 1;
        }
        proof {
            lemma_first_vacant(old(self).slots@);
        }
        self.slots.push(Slot { id, active: true });
        Token { slot: n, id }
    }

    /// Look a resume request up. A token that no longer names an
    /// active transfer — unknown, stale, or already completed — is a
    /// silent no-op: never an error. Nothing is modified either way.
    pub fn unpause(&self, t: Token) -> (r: Option<usize>)
        ensures
            r == if self.token_active(t) {
                Option::Some(t.slot)
            } else {
                Option::<usize>::None
            },
    {
        if t.slot < self.slots.len() {
            let s = self.slots[t.slot];
            if s.active && s.id == t.id {
                return Option::Some(t.slot);
            }
        }
        Option::None
    }

    /// Retire a finished transfer. Returns whether the token was still
    /// live; afterwards it never is, so a completion is delivered at
    /// most once per token.
    pub fn complete(&mut self, t: Token) -> (r: bool)
        requires
            old(self).wf(),
        ensures
            final(self).wf(),
            Manager::complete_step(*old(self), *final(self), t, r),
            !final(self).token_active(t),
    {
        if t.slot < self.slots.len() {
            let s = self.slots[t.slot];
            if s.active && s.id == t.id {
                self.slots.set(t.slot, Slot { id: s.id, active: false });
                return true;
            }
        }
        false
    }

    /// Exactly how one command changes the table and what it asks the
    /// reactor to do.
    pub open spec fn message_step(pre: Manager, post: Manager, m: Message, a: Action) -> bool {
        match m {
            Message::Begin => a matches Action::Started(t) && Manager::begin_step(pre, post, t),
            Message::Unpause(t) => {
                &&& post.slots@ == pre.slots@
                &&& post.next_id == pre.next_id
                &&& a == if pre.token_active(t) {
                    Action::Resume(t.slot)
                } else {
                    Action::Stale
                }
            },
        }
    }

    /// Apply one queued command.
    pub fn handle_message(&mut self, m: Message) -> (a: Action)
        requires
            old(self).wf(),
            old(self).next_id < u64::MAX,
            old(self).slots@.len() < usize::MAX,
        ensures
            final(self).wf(),
            Manager::message_step(*old(self), *final(self), m, a),
            final(self).next_id <= old(self).next_id + 1,
            final(self).slots@.len() <= old(self).slots@.len() + 1,
    {
        match m {
            Message::Begin => {
                let t = self.begin();
                Action::Started(t)
            },
            Message::Unpause(t) => {
                match self.unpause(t) {
                    Option::Some(slot) => Action::Resume(slot),
                    Option::None => Action::Stale,
                }
            },
        }
    }
}

/// The whole drained batch, command by command in queue order: there
/// is a chain of intermediate tables linked by `message_step`, and the
/// actions line up one-to-one with the commands.
pub open spec fn drain_steps(
    pre: Manager,
    post: Manager,
    msgs: Seq<Message>,
    acts: Seq<Action>,
) -> bool
    decreases msgs.len(),
{
    if msgs.len() == 0 {
        &&& post.slots@ == pre.slots@
        &&& post.next_id == pre.next_id
        &&& acts.len() == 0
    } else {
        &&& acts.len() == msgs.len()
        &&& exists|mid: Manager|
            #[trigger] Manager::message_step(pre, mid, msgs.first(), acts.first())
                && drain_steps(mid, post, msgs.drop_first(), acts.drop_first())
    }
}

/// A drained batch extends at its end: appending one more processed
/// command to a valid chain gives a valid chain.
pub proof fn lemma_drain_snoc(
    pre: Manager,
    mid: Manager,
    post: Manager,
    msgs: Seq<Message>,
    acts: Seq<Action>,
    m: Message,
    a: Action,
)
    requires
        drain_steps(pre, mid, msgs, acts),
        Manager::message_step(mid, post, m, a),
    ensures
        drain_steps(pre, post, msgs.push(m), acts.push(a)),
    decreases msgs.len(),
{
    assert(msgs.push(m).first() == if msgs.len() == 0 { m } else { msgs.first() });
    if msgs.len() == 0 {
        // `pre` and `mid` agree on everything `message_step` reads.
        assert(Manager::message_step(pre, post, m, a)) by {
            match m {
                Message::Begin => {
                    assert(first_vacant(pre.slots@) == first_vacant(mid.slots@));
                },
                Message::Unpause(t) => {},
            }
        }
        assert(msgs.push(m).drop_first() =~= msgs);
        assert(acts.push(a).drop_first() =~= acts);
        assert(drain_steps(post, post, msgs, acts));
        assert(Manager::message_step(pre, post, msgs.push(m).first(), acts.push(a).first()));
    } else {
        let mid0 = choose|mid0: Manager|
            #[trigger] Manager::message_step(pre, mid0, msgs.first(), acts.first())
                && drain_steps(mid0, mid, msgs.drop_first(), acts.drop_first());
        lemma_drain_snoc(mid0, mid, post, msgs.drop_first(), acts.drop_first(), m, a);
        assert(msgs.push(m).drop_first() =~= msgs.drop_first().push(m));
        assert(acts.push(a).drop_first() =~= acts.drop_first().push(a));
        assert(acts.push(a).first() == acts.first());
        assert(Manager::message_step(pre, mid0, msgs.push(m).first(), acts.push(a).first()));
    }
}

impl Manager {
    /// Drain every queued command, strictly in the order received, and
    /// report the action each one calls for.
    pub fn handle_pending_messages(&mut self, msgs: &Vec<Message>) -> (acts: Vec<Action>)
        requires
            old(self).wf(),
            old(self).next_id + msgs@.len() <= u64::MAX,
            old(self).slots@.len() + msgs@.len() <= usize::MAX,
        ensures
            final(self).wf(),
            acts@.len() == msgs@.len(),
            drain_steps(*old(self), *final(self), msgs@, acts@),
    {
        let mut acts: Vec<Action> = Vec::new();
        proof {
            assert(msgs@.take(0) =~= Seq::<Message>::empty());
            assert(drain_steps(*old(self), *old(self), msgs@.take(0), acts@));
        }
        let mut i: usize = 0;
        while i < msgs.len()
            invariant
                i <= msgs@.len(),
                acts@.len() == i,
                self.wf(),
                self.next_id + (msgs@.len() - i) <= u64::MAX,
                self.slots@.len() + (msgs@.len() - i) <= usize::MAX,
                drain_steps(*old(self), *self, msgs@.take(i as int), acts@),
            decreases msgs@.len() - i,
        {
            let ghost pre_iter = *self;
            let ghost prev_acts = acts@;
            let m = msgs[i];
            let a = self.handle_message(m);
            acts.push(a);
            proof {
                lemma_drain_snoc(*old(self), pre_iter, *self, msgs@.take(i as int), prev_acts, m, a);
                assert(msgs@.take(i + 1) =~= msgs@.take(i as int).push(m));
            }
            i += 1;
        }
        proof {
            assert(msgs@.take(msgs@.len() as int) =~= msgs@);
        }
        acts
    }
}

/// A completion is attributed to exactly the transfer it was issued
/// for: completing a token kills it, and recycling its slot mints a
/// token with a different id, so the old token stays dead and a late
/// command naming it is a no-op rather than an action on the new
/// occupant.
pub proof fn lemma_no_misattribution(
    m0: Manager,
    m1: Manager,
    m2: Manager,
    m3: Manager,
    t1: Token,
    t2: Token,
)
    requires
        Manager::begin_step(m0, m1, t1),
        Manager::complete_step(m1, m2, t1, true),
        Manager::begin_step(m2, m3, t2),
    ensures
        !m2.token_active(t1),
        t2 != t1,
        !m3.token_active(t1),
{
    assert(m2.slots@[t1.slot as int] == (Slot { id: t1.id, active: false }));
    if t2.slot == t1.slot {
        assert(m3.slots@[t1.slot as int] == (Slot { id: t2.id, active: true }));
    } else {
        if (t1.slot as int) < m2.slots@.len() {
            assert(m3.slots@[t1.slot as int] == m2.slots@[t1.slot as int]);
        }
    }
}

/// The reactor's wait bound: the engine's recommended next timeout,
/// or the default fallback when the engine gives none.
pub fn poll_timeout(engine_timeout: Option<u64>) -> (t: u64)
    ensures
        t == match engine_timeout {
            Option::Some(ms) => ms,
            Option::None => DEFAULT_TIMEOUT_MS,
        },
{
    match engine_timeout {
        Option::Some(ms) => ms,
        Option::None => DEFAULT_TIMEOUT_MS,
    }
}

/// I/O stream for a single active transfer: drains the reactor-owned
/// body buffer and says when a resume command must be sent back to
/// the reactor.
pub struct TransferStream {
    /// The transfer this stream drains.
    pub token: Token,
}

impl TransferStream {
    pub fn new(token: Token) -> (s: TransferStream)
        ensures
            s.token == token,
    {
        TransferStream { token }
    }

    /// Move up to `max` buffered body bytes out of the transfer. The
    /// second result is the `Unpause` command to enqueue, present
    /// exactly when this read drained a paused buffer below the
    /// low-water mark; an empty destination reads nothing.
    pub fn read(&self, state: &mut TransferState, max: usize) -> (r: (Vec<u8>, Option<Message>))
        requires
            old(state).wf(),
        ensures
            final(state).wf(),
            final(state)@ == old(state)@,
            final(state).body == old(state).body,
            final(state).body_pos == old(state).body_pos,
            max == 0 ==> r.0@.len() == 0 && r.1 is None && final(state).buffer == old(
                state,
            ).buffer,
            max > 0 ==> ({
                let k = if (max as int) <= old(state).buffer.unread().len() {
                    max as int
                } else {
                    old(state).buffer.unread().len() as int
                };
                &&& r.0@ == old(state).buffer.unread().take(k)
                &&& final(state).buffer.unread() == old(state).buffer.unread().skip(k)
                &&& final(state).buffer.paused == (old(state).buffer.paused && !(r.1 is Some))
                &&& r.1 == if old(state).buffer.paused && final(state).buffer.unread().len()
                    < LOW_WATER_MARK {
                    Option::Some(Message::Unpause(self.token))
                } else {
                    Option::<Message>::None
                }
            }),
    {
        if max == 0 {
            return (Vec::new(), Option::None);
        }
        let (out, resume) = state.buffer.read(max);
        if resume {
            (out, Option::Some(Message::Unpause(self.token)))
        } else {
            (out, Option::None)
        }
    }
}

} // verus!
