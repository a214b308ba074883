use vstd::prelude::*;

verus! {

/// Once more than this many buffered-but-unread bytes accumulate, body
/// delivery is paused until the reader catches up.
pub const HIGH_WATER_MARK: usize = 8192;

/// Once a paused buffer drains strictly below this level, delivery is
/// resumed; exactly one resume is emitted per pause/drain cycle.
pub const LOW_WATER_MARK: usize = 2048;

/// Copy `src[from..to]` into a fresh vector.
pub fn copy_range(src: &[u8], from: usize, to: usize) -> (v: Vec<u8>)
    requires
        from <= to <= src@.len(),
    ensures
        v@ == src@.subrange(from as int, to as int),
{
    let mut v: Vec<u8> = Vec::new();
    let mut i: usize = from;
    while i < to
        invariant
            from <= i <= to <= src@.len(),
            v@ == src@.subrange(from as int, i as int),
        decreases to - i,
    {
        v.push(src[i]);
        proof {
            assert(v@ =~= src@.subrange(from as int, i + 1));
        }
        i += 1;
    }
    v
}

/// In-order byte buffer standing between the reactor thread, which
/// appends response-body chunks, and the body reader, which drains
/// them; the watermarks govern backpressure.
pub struct ByteBuffer {
    /// Bytes received so far and not yet discarded.
    pub data: Vec<u8>,
    /// How many of `data`'s bytes the reader has already consumed.
    pub pos: usize,
    /// Whether delivery is currently paused for backpressure.
    pub paused: bool,
}

impl ByteBuffer {
    /// The read cursor never passes the end of the data.
    pub open spec fn wf(self) -> bool {
        self.pos <= self.data@.len()
    }

    /// The bytes the reader has not consumed yet.
    pub open spec fn unread(self) -> Seq<u8> {
        self.data@.subrange(self.pos as int, self.data@.len() as int)
    }

    pub fn new() -> (b: ByteBuffer)
        ensures
            b.wf(),
            b.data@.len() == 0,
            b.pos == 0,
            b.unread() == Seq::<u8>::empty(),
            !b.paused,
    {
        let b = ByteBuffer { data: Vec::new(), pos: 0, paused: false };
        proof {
            assert(b.unread() =~= Seq::<u8>::empty());
        }
        b
    }

    /// Exactly how appending one chunk changes the buffer: the bytes
    /// land behind the unread backlog, and delivery pauses as soon as
    /// the backlog passes the high-water mark, staying paused
    /// otherwise as it was.
    pub open spec fn push_step(pre: ByteBuffer, post: ByteBuffer, chunk: Seq<u8>) -> bool {
        &&& post.unread() == pre.unread() + chunk
        &&& post.paused == (pre.paused || post.unread().len() > HIGH_WATER_MARK)
    }

    /// Exactly how one read changes the buffer: the first `min(max,
    /// backlog)` unread bytes move out, and a resume is signalled
    /// precisely when a paused buffer drains strictly below the
    /// low-water mark, which also ends the pause.
    pub open spec fn read_step(
        pre: ByteBuffer,
        post: ByteBuffer,
        max: int,
        out: Seq<u8>,
        resume: bool,
    ) -> bool {
        let k = if max <= pre.unread().len() { max } else { pre.unread().len() as int };
        &&& out == pre.unread().take(k)
        &&& post.unread() == pre.unread().skip(k)
        &&& resume == (pre.paused && post.unread().len() < LOW_WATER_MARK)
        &&& post.paused == (pre.paused && !resume)
    }

    /// Producer side: append a chunk, reporting how many of its bytes
    /// were taken (always all of them), and pause once the unread
    /// backlog exceeds the high-water mark.
    pub fn push(&mut self, chunk: &[u8]) -> (n: usize)
        requires
            old(self).wf(),
            old(self).data@.len() + chunk@.len() <= usize::MAX,
        ensures
            final(self).wf(),
            n == chunk@.len(),
            ByteBuffer::push_step(*old(self), *final(self), chunk@),
            final(self).pos == old(self).pos,
    {
        let mut i: usize = 0;
        while i < chunk.len()
            invariant
                i <= chunk@.len(),
                old(self).data@.len() + chunk@.len() <= usize::MAX,
                self.data@ == old(self).data@ + chunk@.subrange(0, i as int),
                self.pos == old(self).pos,
                self.paused == old(self).paused,
            decreases chunk@.len() - i,
        {
            self.data.push(chunk[i]);
            proof {
                assert(self.data@ =~= old(self).data@ + chunk@.subrange(0, i + 1));
            }
            i += 1;
        }
        proof {
            assert(chunk@.subrange(0, chunk@.len() as int) =~= chunk@);
        }
        let unread_now = self.data.len() - self.pos;
        if unread_now > HIGH_WATER_MARK {
            self.paused = true;
        }
        proof {
            assert(self.unread() =~= old(self).unread() + chunk@);
        }
        chunk.len()
    }

    /// Consumer side: move up to `max` bytes out of the buffer. The
    /// second result reports whether a resume must now be sent: true
    /// exactly when the buffer was paused and this read drained it
    /// strictly below the low-water mark.
    pub fn read(&mut self, max: usize) -> (r: (Vec<u8>, bool))
        requires
            old(self).wf(),
        ensures
            final(self).wf(),
            ByteBuffer::read_step(*old(self), *final(self), max as int, r.0@, r.1),
    {
        let avail = self.data.len() - self.pos;
        let k = if max < avail { max } else { avail };
        let out = copy_range(self.data.as_slice(), self.pos, self.pos + k);
        self.pos = self.pos + k;
        proof {
            let kk = if (max as int) <= old(self).unread().len() {
                max as int
            } else {
                old(self).unread().len() as int
            };
            assert(out@ =~= old(self).unread().take(kk));
            assert(self.unread() =~= old(self).unread().skip(kk));
        }
        if self.pos == self.data.len() {
            self.data.clear();
            self.pos = 0;
            proof {
                assert(self.unread() =~= old(self).unread().skip(
                    if (max as int) <= old(self).unread().len() {
                        max as int
                    } else {
                        old(self).unread().len() as int
                    },
                ));
            }
        }
        let resume = self.paused && (self.data.len() - self.pos) < LOW_WATER_MARK;
        if resume {
            self.paused = false;
        }
        (out, resume)
    }
}

/// Feeding more than the high-water mark pauses delivery: however the
/// backlog got there, the write that leaves more than the mark unread
/// leaves the buffer paused.
pub proof fn lemma_pause_at_high_water(pre: ByteBuffer, post: ByteBuffer, chunk: Seq<u8>)
    requires
        ByteBuffer::push_step(pre, post, chunk),
        pre.unread().len() + chunk.len() > HIGH_WATER_MARK,
    ensures
        post.paused,
{
}

/// A paused buffer stays paused through reads that leave it at or
/// above the low-water mark; no resume is signalled for them.
pub proof fn lemma_no_early_resume(
    pre: ByteBuffer,
    post: ByteBuffer,
    max: int,
    out: Seq<u8>,
    resume: bool,
)
    requires
        ByteBuffer::read_step(pre, post, max, out, resume),
        pre.paused,
        post.unread().len() >= LOW_WATER_MARK,
    ensures
        !resume,
        post.paused,
{
}

/// Exactly one resume per pause/drain cycle: once a read signals the
/// resume, the pause is over, so no later read signals another until
/// a fresh pause begins.
pub proof fn lemma_one_resume_per_cycle(
    b0: ByteBuffer,
    b1: ByteBuffer,
    b2: ByteBuffer,
    m1: int,
    o1: Seq<u8>,
    r1: bool,
    m2: int,
    o2: Seq<u8>,
    r2: bool,
)
    requires
        ByteBuffer::read_step(b0, b1, m1, o1, r1),
        ByteBuffer::read_step(b1, b2, m2, o2, r2),
        r1,
    ensures
        !b1.paused,
        !r2,
{
}

} // verus!
