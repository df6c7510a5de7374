//! The terminal output queue between the render loop and the writer.
//!
//! The render loop never waits for the terminal: its writes accumulate in the
//! sink, and a flush moves them into the queue that the writer drains. When the
//! writer falls so far behind that the backlog would pass [`CAP_BYTES`], the
//! stale backlog is dropped and the sink asks for a full repaint, which replaces
//! everything that was lost. Emptied buffers travel back for reuse.
use vstd::prelude::*;

use std::collections::VecDeque;

use crate::render_prof::{wrapped_sum, Counters, RenderProf};

verus! {

/// Backlog cap in bytes before the sink drops the stale queue.
pub const CAP_BYTES: usize = 262_144;

/// Most recycled buffers held on either side.
pub const SPARE_POOL: usize = 4;

/// Largest recycled buffer kept.
pub const SPARE_MAX_BYTES: usize = 65_536;

/// The queue shared by the sink and the writer.
#[derive(Debug)]
pub struct QueueState {
    /// Flushed buffers, to be written in order.
    pub chunks: VecDeque<Vec<u8>>,
    /// Buffers the writer is done with.
    pub spare: Vec<Vec<u8>>,
    /// The bytes in `chunks`.
    pub bytes: usize,
    /// The writer is to exit once the queue is empty.
    pub shutdown: bool,
}

/// The mathematical content of a [`QueueState`].
#[verifier::ext_equal]
pub struct QueueView {
    pub chunks: Seq<Seq<u8>>,
    pub spares: Seq<Seq<u8>>,
    pub bytes: usize,
    pub shutdown: bool,
}

/// What each buffer holds.
pub open spec fn contents(buffers: Seq<Vec<u8>>) -> Seq<Seq<u8>> {
    Seq::new(buffers.len(), |i: int| buffers[i]@)
}

impl View for QueueState {
    type V = QueueView;

    open spec fn view(&self) -> QueueView {
        QueueView {
            chunks: contents(self.chunks@),
            spares: contents(self.spare@),
            bytes: self.bytes,
            shutdown: self.shutdown,
        }
    }
}

/// The bytes of some buffers, one after the other.
pub open spec fn joined_bytes(chunks: Seq<Seq<u8>>) -> Seq<u8>
    decreases chunks.len(),
{
    if chunks.len() == 0 {
        Seq::empty()
    } else {
        joined_bytes(chunks.drop_last()) + chunks.last()
    }
}

impl QueueView {
    /// The byte count is that of the chunks and within the cap, and the spare
    /// pool is within its bound.
    pub open spec fn wf(self) -> bool {
        &&& self.bytes == joined_bytes(self.chunks).len()
        &&& self.bytes <= CAP_BYTES
        &&& self.spares.len() <= SPARE_POOL
    }
}

/// The buffers are all empty.
pub open spec fn all_empty(buffers: Seq<Vec<u8>>) -> bool {
    forall|i: int| 0 <= i < buffers.len() ==> (#[trigger] buffers[i])@.len() == 0
}

/// That many empty buffers.
pub open spec fn empties(n: nat) -> Seq<Seq<u8>> {
    Seq::new(n, |i: int| Seq::empty())
}

/// How many of the capacities are small enough to keep.
pub open spec fn count_small(caps: Seq<usize>) -> nat
    decreases caps.len(),
{
    if caps.len() == 0 {
        0
    } else {
        count_small(caps.drop_last()) + if caps.last() <= SPARE_MAX_BYTES {
            1nat
        } else {
            0nat
        }
    }
}

/// The size of a pool of `held` buffers after `more` were offered to it.
pub open spec fn pool_size(held: nat, more: nat) -> nat {
    if held >= SPARE_POOL {
        held
    } else if held + more > SPARE_POOL {
        SPARE_POOL as nat
    } else {
        held + more
    }
}

/// `alloc::vec::Vec::capacity`: how many bytes the buffer can hold without
/// allocating, which is at least its length. The number is the allocator's.
#[verifier::external_body]
fn capacity_of(buffer: &Vec<u8>) -> (cap: usize)
    ensures
        cap >= buffer@.len(),
{
    buffer.capacity()
}

/// An empty queue.
pub fn empty_queue() -> (q: QueueState)
    ensures
        q@ == (QueueView {
            chunks: Seq::empty(),
            spares: Seq::empty(),
            bytes: 0,
            shutdown: false,
        }),
        q@.wf(),
{
    let q = QueueState {
        chunks: VecDeque::new(),
        spare: Vec::new(),
        bytes: 0,
        shutdown: false,
    };
    proof {
        assert(q@.chunks =~= Seq::<Seq<u8>>::empty());
        assert(q@.spares =~= Seq::<Seq<u8>>::empty());
    }
    q
}

/// The sink's side: what is being written, and buffers ready to be refilled.
#[derive(Debug)]
pub struct StdoutSink {
    /// Stale frames were dropped: the latest state must be repainted.
    pub needs_resync: bool,
    pub pending: Vec<u8>,
    pub recycled: Vec<Vec<u8>>,
}

/// The mathematical content of a [`StdoutSink`].
#[verifier::ext_equal]
pub struct SinkView {
    pub needs_resync: bool,
    pub pending: Seq<u8>,
    pub recycled: Seq<Seq<u8>>,
}

impl View for StdoutSink {
    type V = SinkView;

    open spec fn view(&self) -> SinkView {
        SinkView {
            needs_resync: self.needs_resync,
            pending: self.pending@,
            recycled: contents(self.recycled@),
        }
    }
}

/// What counting one flush of `n` bytes does.
pub open spec fn flush_counted(prof: RenderProf, n: u64) -> RenderProf {
    if prof.enabled {
        RenderProf {
            counters: Counters {
                flushes: wrapped_sum(prof.counters.flushes, 1),
                bytes: wrapped_sum(prof.counters.bytes, n),
                ..prof.counters
            },
            ..prof
        }
    } else {
        prof
    }
}

/// The chunk would take the backlog past the cap.
pub open spec fn overflows(q: QueueView, chunk: Seq<u8>) -> bool {
    q.bytes + chunk.len() > CAP_BYTES
}

/// The queue after a flush of `chunk`: the chunk at its end or, where that would
/// overflow, nothing at all. The spare buffers have gone to the sink.
pub open spec fn flushed(q: QueueView, chunk: Seq<u8>) -> QueueView {
    if overflows(q, chunk) {
        QueueView { chunks: Seq::empty(), bytes: 0, spares: Seq::empty(), ..q }
    } else {
        QueueView {
            chunks: q.chunks.push(chunk),
            bytes: (q.bytes + chunk.len()) as usize,
            spares: Seq::empty(),
            ..q
        }
    }
}

/// How many recycled buffers the sink has after a flush: those taken back from the writer,
/// less the one that is refilled, and the dropped one where it is small enough.
pub open spec fn recycled_after(held: nat, small: nat, overflow: bool, own_cap: usize) -> nat {
    let back = pool_size(held, small);
    let left = if back > 0 {
        (back - 1) as nat
    } else {
        0
    };
    if overflow && left < SPARE_POOL && own_cap <= SPARE_MAX_BYTES {
        left + 1
    } else {
        left
    }
}

impl StdoutSink {
    /// A sink with nothing written.
    pub fn new() -> (s: StdoutSink)
        ensures
            s@ == (SinkView {
                needs_resync: false,
                pending: Seq::empty(),
                recycled: Seq::empty(),
            }),
            s.wf(),
    {
        let s = StdoutSink {
            needs_resync: false,
            pending: Vec::with_capacity(8192),
            recycled: Vec::with_capacity(SPARE_POOL),
        };
        proof {
            assert(s@.pending =~= Seq::<u8>::empty());
            assert(s@.recycled =~= Seq::<Seq<u8>>::empty());
        }
        s
    }

    /// Recycled buffers are empty and no more than the pool holds.
    pub open spec fn wf(self) -> bool {
        all_empty(self.recycled@) && self.recycled@.len() <= SPARE_POOL
    }

    /// Take back the buffers the writer is done with, given their capacities:
    /// from the last one on, small ones until the pool is full. The rest are let
    /// go.
    pub fn reclaim_sized(
        recycled: &mut Vec<Vec<u8>>,
        q: &mut QueueState,
        caps: &Vec<usize>,
    )
        requires
            caps@.len() == old(q).spare@.len(),
        ensures
            final(recycled)@.len() == pool_size(old(recycled)@.len(), count_small(caps@)),
            final(recycled)@.take(old(recycled)@.len() as int) == old(recycled)@,
            all_empty(final(recycled)@.skip(old(recycled)@.len() as int)),
            final(q)@ == (QueueView { spares: Seq::empty(), ..old(q)@ }),
    {
        let ghost held = recycled@.len();
        let ghost before = recycled@;
        proof {
            assert(caps@.take(caps@.len() as int) =~= caps@);
            assert(before.take(held as int) =~= before);
        }
        while recycled.len() < SPARE_POOL && q.spare.len() > 0
            invariant
                q.spare@.len() <= caps@.len(),
                held == before.len(),
                held <= recycled@.len(),
                recycled@.len() <= SPARE_POOL || recycled@.len() == held,
                recycled@.take(held as int) == before,
                forall|i: int| held <= i < recycled@.len() ==> (#[trigger] recycled@[i])@.len() == 0,
                recycled@.len() + count_small(caps@.take(q.spare@.len() as int)) == held
                    + count_small(caps@),
                q.chunks@ == old(q).chunks@,
                q.bytes == old(q).bytes,
                q.shutdown == old(q).shutdown,
            decreases q.spare@.len(),
        {
            let k: usize = q.spare.len() - 1;
            let cap = caps[k];
            proof {
                assert(caps@.take(k + 1).drop_last() =~= caps@.take(k as int));
                assert(caps@.take(k + 1).last() == cap);
            }
            match q.spare.pop() {
                Some(mut buf) => {
                    if cap <= SPARE_MAX_BYTES {
                        buf.clear();
                        let ghost was = recycled@;
                        recycled.push(buf);
                        proof {
                            assert(recycled@.take(held as int) =~= was.take(held as int));
                        }
                    }
                },
                None => {},
            }
        }
        q.spare.clear();
        proof {
            assert(q@.chunks =~= old(q)@.chunks);
            assert(q@.spares =~= Seq::<Seq<u8>>::empty());
            let rest = recycled@.skip(held as int);
            assert forall|i: int| 0 <= i < rest.len() implies (#[trigger] rest[i])@.len() == 0 by {
                assert(rest[i] == recycled@[held + i]);
            }
        }
    }

    /// Take back the buffers the writer is done with.
    pub fn reclaim(recycled: &mut Vec<Vec<u8>>, q: &mut QueueState)
        ensures
            exists|caps: Seq<usize>|
                caps.len() == old(q).spare@.len() && (forall|i: int|
                    0 <= i < caps.len() ==> caps[i] >= (#[trigger] old(q).spare@[i])@.len())
                    && final(recycled)@.len() == pool_size(
                    old(recycled)@.len(),
                    #[trigger] count_small(caps),
                ),
            final(recycled)@.take(old(recycled)@.len() as int) == old(recycled)@,
            all_empty(final(recycled)@.skip(old(recycled)@.len() as int)),
            final(q)@ == (QueueView { spares: Seq::empty(), ..old(q)@ }),
    {
        let mut caps: Vec<usize> = Vec::new();
        let mut i: usize = 0;
        while i < q.spare.len()
            invariant
                i <= q.spare@.len(),
                *q == *old(q),
                caps@.len() == i,
                forall|j: int| 0 <= j < i ==> caps@[j] >= (#[trigger] q.spare@[j])@.len(),
            decreases q.spare@.len() - i,
        {
            caps.push(capacity_of(&q.spare[i]));
            i = i + 1;
        }
        StdoutSink::reclaim_sized(recycled, q, &caps);
        proof {
            let n = count_small(caps@);
        }
    }

    /// Append bytes; nothing is shipped until the next flush.
    pub fn write(&mut self, buf: &[u8]) -> (n: usize)
        ensures
            n == buf@.len(),
            final(self)@ == (SinkView { pending: old(self)@.pending + buf@, ..old(self)@ }),
            old(self).wf() ==> final(self).wf(),
    {
        self.pending.extend_from_slice(buf);
        proof {
            assert(self.pending@ =~= old(self).pending@ + buf@);
        }
        buf.len()
    }

    /// Ship what was written: put it into the queue, or drop the whole backlog
    /// with it and ask for a repaint where it would pass the cap. It never
    /// waits. The caller wakes the writer.
    pub fn flush(&mut self, q: &mut QueueState, prof: &mut RenderProf) -> (shipped: bool)
        requires
            old(self).wf(),
        ensures
            final(self).wf(),
            shipped == (old(self)@.pending.len() > 0),
            !shipped ==> *final(self) == *old(self) && *final(q) == *old(q) && *final(prof) == *old(
                prof,
            ),
            shipped ==> {
                &&& final(self)@.pending == Seq::<u8>::empty()
                &&& final(self)@.needs_resync == (old(self)@.needs_resync || overflows(
                    old(q)@,
                    old(self)@.pending,
                ))
                &&& final(q)@ == flushed(old(q)@, old(self)@.pending)
                &&& *final(prof) == flush_counted(*old(prof), old(self)@.pending.len() as u64)
                &&& exists|caps: Seq<usize>, own_cap: usize|
                    caps.len() == old(q).spare@.len() && own_cap >= old(self)@.pending.len()
                        && final(self)@.recycled == empties(
                        #[trigger] recycled_after(
                            old(self)@.recycled.len(),
                            count_small(caps),
                            overflows(old(q)@, old(self)@.pending),
                            own_cap,
                        ),
                    )
            },
            old(q)@.wf() ==> final(q)@.wf(),
    {
        if self.pending.len() == 0 {
            return false;
        }
        prof.note_flushes(1);
        prof.note_bytes(self.pending.len() as u64);
        let ghost held = self.recycled@;
        StdoutSink::reclaim(&mut self.recycled, q);
        let ghost caps = choose|caps: Seq<usize>|
            caps.len() == old(q).spare@.len() && self.recycled@.len() == pool_size(
                held.len(),
                #[trigger] count_small(caps),
            );
        proof {
            assert forall|i: int| 0 <= i < self.recycled@.len() implies (
            #[trigger] self.recycled@[i])@.len() == 0 by {
                if i < held.len() {
                    assert(self.recycled@.take(held.len() as int)[i] == held[i]);
                } else {
                    assert(self.recycled@.skip(held.len() as int)[i - held.len()]
                        == self.recycled@[i]);
                }
            }
        }
        let mut chunk = match self.recycled.pop() {
            Some(buf) => buf,
            None => Vec::new(),
        };
        proof {
            assert(chunk@ =~= Seq::<u8>::empty());
        }
        core::mem::swap(&mut chunk, &mut self.pending);
        let ghost sent = chunk@;
        let ghost queued = q@.chunks;
        proof {
            assert(queued.push(sent).drop_last() =~= queued);
        }
        let own_cap = capacity_of(&chunk);
        if q.bytes.saturating_add(chunk.len()) > CAP_BYTES {
            q.chunks.clear();
            q.bytes = 0;
            self.needs_resync = true;
            if self.recycled.len() < SPARE_POOL && own_cap <= SPARE_MAX_BYTES {
                chunk.clear();
                self.recycled.push(chunk);
            }
            proof {
                assert(q@.chunks =~= Seq::<Seq<u8>>::empty());
            }
        } else {
            q.bytes = q.bytes + chunk.len();
            q.chunks.push_back(chunk);
            proof {
                assert(q@.chunks =~= queued.push(sent));
            }
        }
        proof {
            let left = recycled_after(
                old(self)@.recycled.len(),
                count_small(caps),
                overflows(old(q)@, old(self)@.pending),
                own_cap,
            );
            assert forall|i: int| 0 <= i < self@.recycled.len() implies #[trigger] self@.recycled[i]
                == empties(left)[i] by {
                assert(self.recycled@[i]@ =~= Seq::<u8>::empty());
            }
            assert(self@.recycled =~= empties(left));
        }
        true
    }
}

/// What the writer does next.
#[derive(Debug)]
pub enum WriterStep {
    /// Wait to be woken.
    Wait,
    /// Leave.
    Exit,
    /// Write these buffers in order, asking before each but the first whether to
    /// go on.
    Write {
        batch: Vec<Vec<u8>>,
        /// The writer had been told to leave when it took them.
        closing: bool,
    },
}

/// The writer's next step: wait while there is nothing to write, leave when it
/// was also told to, else take the whole queue.
pub fn next_step(q: &mut QueueState) -> (step: WriterStep)
    ensures
        match step {
            WriterStep::Wait => old(q)@.chunks.len() == 0 && !old(q)@.shutdown && final(q)@ == old(
                q,
            )@,
            WriterStep::Exit => leaves(old(q)@) && final(q)@ == old(q)@,
            WriterStep::Write { batch, closing } => {
                &&& old(q)@.chunks.len() > 0
                &&& closing == old(q)@.shutdown
                &&& contents(batch@) == old(q)@.chunks
                &&& final(q)@ == (QueueView { chunks: Seq::empty(), bytes: 0, ..old(q)@ })
            },
        },
        old(q)@.wf() ==> final(q)@.wf(),
{
    if q.chunks.len() == 0 {
        return if q.shutdown {
            WriterStep::Exit
        } else {
            WriterStep::Wait
        };
    }
    q.bytes = 0;
    let ghost all = q.chunks@;
    let mut batch: Vec<Vec<u8>> = Vec::new();
    proof {
        assert(batch@ + q.chunks@ =~= all);
    }
    while q.chunks.len() > 0
        invariant
            batch@ + q.chunks@ == all,
            q.bytes == 0,
            q.spare@ == old(q).spare@,
            q.shutdown == old(q).shutdown,
        decreases q.chunks@.len(),
    {
        let ghost rest = q.chunks@;
        match q.chunks.pop_front() {
            Some(chunk) => {
                batch.push(chunk);
            },
            None => {},
        }
        proof {
            assert(batch@ + q.chunks@ =~= all);
        }
    }
    proof {
        assert(batch@ =~= all);
        assert(q@.chunks =~= Seq::<Seq<u8>>::empty());
    }
    WriterStep::Write { batch, closing: q.shutdown }
}

/// The writer goes on with its batch: it was not told to leave since it took it.
pub open spec fn continues(q: QueueView, closing: bool) -> bool {
    closing || !q.shutdown
}

/// Whether the writer goes on with the batch it took, asked between two buffers.
pub fn goes_on(q: &QueueState, closing: bool) -> (b: bool)
    ensures
        b == continues(q@, closing),
{
    closing || !q.shutdown
}

/// A pool after `more` buffers were offered to it: those it takes come last,
/// emptied.
pub open spec fn given_back(pool: Seq<Seq<u8>>, more: nat) -> Seq<Seq<u8>> {
    pool + empties((pool_size(pool.len(), more) - pool.len()) as nat)
}

/// Hand written buffers back, given their capacities: small ones, emptied, until
/// the pool is full.
pub fn give_back_sized(q: &mut QueueState, batch: Vec<Vec<u8>>, caps: &Vec<usize>)
    requires
        caps@.len() == batch@.len(),
    ensures
        final(q)@ == (QueueView {
            spares: given_back(old(q)@.spares, count_small(caps@)),
            ..old(q)@
        }),
        old(q)@.wf() ==> final(q)@.wf(),
{
    let ghost held = q.spare@.len();
    let ghost before = q.spare@;
    let ghost n = batch@.len();
    let mut rest = batch;
    let mut buffers: Vec<Vec<u8>> = Vec::new();
    // Turn the batch around so that it is handed back from its front.
    while rest.len() > 0
        invariant
            rest@.len() + buffers@.len() == n,
        decreases rest@.len(),
    {
        match rest.pop() {
            Some(buf) => {
                buffers.push(buf);
            },
            None => {},
        }
    }
    let mut i: usize = 0;
    proof {
        assert(before.take(held as int) =~= before);
        assert(caps@.take(0) =~= Seq::<usize>::empty());
    }
    while i < caps.len()
        invariant
            i <= caps@.len(),
            buffers@.len() == caps@.len() - i,
            held == before.len(),
            held <= q.spare@.len(),
            q.spare@.len() == pool_size(held, count_small(caps@.take(i as int))),
            q.spare@.take(held as int) == before,
            forall|j: int| held <= j < q.spare@.len() ==> (#[trigger] q.spare@[j])@.len() == 0,
            q.chunks@ == old(q).chunks@,
            q.bytes == old(q).bytes,
            q.shutdown == old(q).shutdown,
        decreases caps@.len() - i,
    {
        let cap = caps[i];
        proof {
            assert(caps@.take(i + 1).drop_last() =~= caps@.take(i as int));
            assert(caps@.take(i + 1).last() == cap);
        }
        match buffers.pop() {
            Some(mut buf) => {
                if q.spare.len() < SPARE_POOL && cap <= SPARE_MAX_BYTES {
                    buf.clear();
                    let ghost was = q.spare@;
                    q.spare.push(buf);
                    proof {
                        assert(q.spare@.take(held as int) =~= was.take(held as int));
                    }
                }
            },
            None => {},
        }
        i = i + 1;
    }
    proof {
        assert(caps@.take(i as int) =~= caps@);
        assert(q@.chunks =~= old(q)@.chunks);
        let end = given_back(old(q)@.spares, count_small(caps@));
        assert forall|j: int| 0 <= j < q@.spares.len() implies #[trigger] q@.spares[j] == end[j] by {
            if j < held {
                assert(q.spare@.take(held as int)[j] == before[j]);
            } else {
                assert(q.spare@[j]@ =~= Seq::<u8>::empty());
            }
        }
        assert(q@.spares =~= end);
    }
}

/// Hand written buffers back for the sink to refill.
pub fn give_back(q: &mut QueueState, batch: Vec<Vec<u8>>)
    ensures
        exists|caps: Seq<usize>|
            caps.len() == batch@.len() && (forall|i: int|
                0 <= i < caps.len() ==> caps[i] >= (#[trigger] batch@[i])@.len()) && final(q)@ == (
            QueueView {
                spares: given_back(old(q)@.spares, #[trigger] count_small(caps)),
                ..old(q)@
            }),
        old(q)@.wf() ==> final(q)@.wf(),
{
    let mut caps: Vec<usize> = Vec::new();
    let mut i: usize = 0;
    while i < batch.len()
        invariant
            i <= batch@.len(),
            caps@.len() == i,
            forall|j: int| 0 <= j < i ==> caps@[j] >= (#[trigger] batch@[j])@.len(),
        decreases batch@.len() - i,
    {
        caps.push(capacity_of(&batch[i]));
        i = i + 1;
    }
    give_back_sized(q, batch, &caps);
    proof {
        let n = count_small(caps@);
    }
}

/// The queue once the writer was told to leave: nothing left to write.
pub open spec fn shut(q: QueueView) -> QueueView {
    QueueView { chunks: Seq::empty(), bytes: 0, shutdown: true, ..q }
}

/// The writer leaves at its next step.
pub open spec fn leaves(q: QueueView) -> bool {
    q.chunks.len() == 0 && q.shutdown
}

/// Tell the writer to leave and drop the backlog: what it would still paint is
/// about to be discarded with the screen.
pub fn shut_down(q: &mut QueueState)
    ensures
        final(q)@ == shut(old(q)@),
        old(q)@.wf() ==> final(q)@.wf(),
{
    q.shutdown = true;
    q.chunks.clear();
    q.bytes = 0;
    proof {
        assert(q@.chunks =~= Seq::<Seq<u8>>::empty());
    }
}

/// Output stays in order: a flush that fits puts its bytes after everything
/// queued before.
pub proof fn law_flushed_bytes_stay_in_order(q: QueueView, chunk: Seq<u8>)
    requires
        !overflows(q, chunk),
    ensures
        joined_bytes(flushed(q, chunk).chunks) == joined_bytes(q.chunks) + chunk,
{
    assert(q.chunks.push(chunk).drop_last() =~= q.chunks);
}

/// Memory is bounded: whatever is flushed, the backlog stays within the cap, and
/// a flush that would pass it leaves nothing stale behind.
pub proof fn law_the_backlog_is_bounded(q: QueueView, chunk: Seq<u8>)
    requires
        q.wf(),
    ensures
        flushed(q, chunk).wf(),
        joined_bytes(flushed(q, chunk).chunks).len() <= CAP_BYTES,
        overflows(q, chunk) ==> joined_bytes(flushed(q, chunk).chunks).len() == 0,
{
    if !overflows(q, chunk) {
        law_flushed_bytes_stay_in_order(q, chunk);
    }
}

/// Shutting down ends the writer promptly: with the backlog dropped, it finishes
/// at most the buffer it is writing, does not go on with a batch it took before,
/// and leaves at its next step.
pub proof fn law_a_shut_queue_ends_the_writer(q: QueueView)
    ensures
        leaves(shut(q)),
        joined_bytes(shut(q).chunks).len() == 0,
        !continues(shut(q), false),
{
}

/// A batch is written whole unless the writer is told to leave meanwhile: a
/// queue that is not shut lets it go on, and so does one that was shut before
/// the batch was taken.
pub proof fn law_a_batch_is_cut_short_only_by_shutting_down(q: QueueView, closing: bool)
    ensures
        !continues(q, closing) <==> q.shutdown && !closing,
{
}

/// The queue after several flushes, in order.
pub open spec fn flushed_all(q: QueueView, chunks: Seq<Seq<u8>>) -> QueueView
    decreases chunks.len(),
{
    if chunks.len() == 0 {
        q
    } else {
        flushed(flushed_all(q, chunks.drop_last()), chunks.last())
    }
}

/// Nothing is lost below the cap: flushes that fit together are queued whole and
/// in order, behind what was queued before.
pub proof fn law_flushes_below_the_cap_are_kept_whole(q: QueueView, chunks: Seq<Seq<u8>>)
    requires
        q.wf(),
        q.bytes + joined_bytes(chunks).len() <= CAP_BYTES,
    ensures
        joined_bytes(flushed_all(q, chunks).chunks) == joined_bytes(q.chunks) + joined_bytes(
            chunks,
        ),
        flushed_all(q, chunks).bytes == q.bytes + joined_bytes(chunks).len(),
    decreases chunks.len(),
{
    if chunks.len() == 0 {
        assert(joined_bytes(q.chunks) + joined_bytes(chunks) =~= joined_bytes(q.chunks));
    } else {
        let rest = chunks.drop_last();
        law_flushes_below_the_cap_are_kept_whole(q, rest);
        let before = flushed_all(q, rest);
        law_flushed_bytes_stay_in_order(before, chunks.last());
        assert(joined_bytes(before.chunks) + chunks.last() =~= joined_bytes(q.chunks)
            + joined_bytes(chunks));
    }
}

} // verus!
