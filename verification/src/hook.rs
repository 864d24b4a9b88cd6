//! Dispatch of relayed chunks to the inspection hook.
//!
//! The embedded scripting engine behind the hook holds interpreter-global
//! state and must never run two invocations at once.  Each (connection,
//! direction) therefore owns an ordered queue of pending chunks, and a
//! single serializing executor takes one chunk at a time and invokes the
//! engine with it.  The pump enqueues and never waits for the invocation
//! to finish, so a slow or failing script cannot stall relaying; an
//! invocation that fails is logged and the next chunk is processed
//! unaffected.

use vstd::prelude::*;
use crate::pump::PumpEventView;
use crate::pump::bytes_read;
use crate::pump::chunks_read;
use crate::pump::lemma_pump_run_invariant;
use crate::pump::run_trace;
use crate::pump::valid_trace;

verus! {

/// The ordered queue of chunks of one (connection, direction) awaiting
/// inspection.  First enqueued, first invoked.
pub struct DispatchQueue {
    pending: Vec<Vec<u8>>,
}

impl View for DispatchQueue {
    type V = Seq<Seq<u8>>;

    closed spec fn view(&self) -> Seq<Seq<u8>> {
        self.pending@.map_values(|c: Vec<u8>| c@)
    }
}

impl DispatchQueue {
    /// An empty queue.
    pub fn new() -> (r: DispatchQueue)
        ensures
            r@ == Seq::<Seq<u8>>::empty(),
    {
        let q = DispatchQueue { pending: Vec::new() };
        proof {
            assert(q@ =~= Seq::<Seq<u8>>::empty());
        }
        q
    }

    /// How many chunks await inspection.
    pub fn len(&self) -> (r: usize)
        ensures
            r == self@.len(),
    {
        self.pending.len()
    }

    /// The pump's fire-and-forget dispatch: appends the chunk behind all
    /// earlier ones of this direction, preserving read order.
    pub fn enqueue(&mut self, chunk: Vec<u8>)
        ensures
            final(self)@ == old(self)@.push(chunk@),
    {
        let ghost before = self.pending@;
        self.pending.push(chunk);
        proof {
            assert(self@ =~= before.map_values(|c: Vec<u8>| c@).push(chunk@));
        }
    }

    /// The executor's side: removes and returns the oldest pending chunk,
    /// or nothing when the queue is empty.
    pub fn take_next(&mut self) -> (r: Option<Vec<u8>>)
        ensures
            (old(self)@.len() == 0 ==> r is None && final(self)@ == old(self)@),
            (old(self)@.len() > 0 ==> (r matches Some(c) && c@ == old(self)@[0] && final(self)@
                == old(self)@.drop_first())),
    {
        if self.pending.len() == 0 {
            Option::None
        } else {
            let ghost before = self.pending@;
            let c = self.pending.remove(0);
            proof {
                assert(self@ =~= before.map_values(|x: Vec<u8>| x@).drop_first());
            }
            Option::Some(c)
        }
    }
}

/// What the serializing executor did with a queue of chunks.
pub struct HookLogView {
    /// The chunks handed to the engine, in the order they were invoked.
    pub invoked: Seq<Seq<u8>>,
    /// How many invocations raised an error (each was logged and had no
    /// further effect).
    pub failures: nat,
}

/// The serializing executor's processing of a queue: one invocation at a
/// time — never two at once — in queue order, where `outcomes[i]` says
/// whether the engine's `i`-th invocation succeeded.  A failed invocation
/// is counted and the next chunk is processed all the same.
pub open spec fn spec_drain(chunks: Seq<Seq<u8>>, outcomes: Seq<bool>) -> HookLogView
    decreases chunks.len(),
{
    if chunks.len() == 0 {
        HookLogView { invoked: Seq::empty(), failures: 0 }
    } else {
        let rest = spec_drain(chunks.drop_last(), outcomes.take(chunks.len() - 1));
        HookLogView {
            invoked: rest.invoked.push(chunks.last()),
            failures: rest.failures + (if chunks.len() <= outcomes.len() && outcomes[chunks.len()
                - 1] {
                0nat
            } else {
                1nat
            }),
        }
    }
}

/// Every queued chunk is invoked, in queue order, whatever each
/// invocation returned: an error for one chunk never suppresses the
/// inspection of later chunks.
pub proof fn lemma_drain_invokes_all(chunks: Seq<Seq<u8>>, outcomes: Seq<bool>)
    ensures
        spec_drain(chunks, outcomes).invoked == chunks,
    decreases chunks.len(),
{
    if chunks.len() == 0 {
        assert(spec_drain(chunks, outcomes).invoked =~= chunks);
    } else {
        lemma_drain_invokes_all(chunks.drop_last(), outcomes.take(chunks.len() - 1));
        assert(spec_drain(chunks, outcomes).invoked =~= chunks);
    }
}

/// The joint behaviour of one direction's pump and the inspection
/// executor: what was relayed, what was inspected, how many invocations
/// failed.  Dispatch is fire-and-forget, so the relayed bytes are a
/// function of the transport trace alone — the outcomes enter only the
/// inspection log.
pub struct InspectedRun {
    /// The bytes the pump flushed to its destination.
    pub relayed: Seq<u8>,
    /// The chunks the engine was invoked with, in order.
    pub inspected: Seq<Seq<u8>>,
    /// How many invocations raised an error.
    pub hook_failures: nat,
}

/// One direction of one connection together with its inspection
/// pipeline, as a function of the transport trace and the engine's
/// per-invocation outcomes.
pub open spec fn run_with_inspection(evs: Seq<PumpEventView>, outcomes: Seq<bool>)
    -> InspectedRun {
    InspectedRun {
        relayed: run_trace(evs).written,
        inspected: spec_drain(run_trace(evs).observed, outcomes).invoked,
        hook_failures: spec_drain(run_trace(evs).observed, outcomes).failures,
    }
}

/// Hook-failure isolation: however many invocations raise errors, and
/// wherever in the stream they do, the bytes relayed and the chunks
/// inspected are exactly those of a run in which every invocation
/// succeeded — the chunk whose invocation failed and all chunks after it
/// are forwarded and inspected unaffected.
pub proof fn lemma_hook_failure_isolation(
    evs: Seq<PumpEventView>,
    outcomes: Seq<bool>,
    all_ok: Seq<bool>,
)
    requires
        valid_trace(evs),
    ensures
        run_with_inspection(evs, outcomes).relayed == run_with_inspection(evs, all_ok).relayed,
        run_with_inspection(evs, outcomes).inspected == run_with_inspection(evs, all_ok).inspected,
        run_with_inspection(evs, outcomes).inspected == chunks_read(evs),
{
    lemma_pump_run_invariant(evs);
    lemma_drain_invokes_all(run_trace(evs).observed, outcomes);
    lemma_drain_invokes_all(run_trace(evs).observed, all_ok);
}

/// A script that accumulates one direction's chunks sees exactly that
/// direction's byte stream: the chunks read concatenate to the bytes
/// read, in stream order, whatever the chunk boundaries were.
pub proof fn lemma_hook_sees_the_stream(evs: Seq<PumpEventView>)
    ensures
        chunks_read(evs).flatten() == bytes_read(evs),
    decreases evs.len(),
{
    if evs.len() == 0 {
        assert(chunks_read(evs).flatten() =~= bytes_read(evs));
    } else {
        let pre = evs.drop_last();
        lemma_hook_sees_the_stream(pre);
        match evs.last() {
            PumpEventView::ChunkRead(d) => {
                if d.len() > 0 {
                    assert(chunks_read(evs) =~= chunks_read(pre).push(d));
                    chunks_read(pre).lemma_flatten_push(d);
                    assert(chunks_read(evs).flatten() =~= bytes_read(evs));
                } else {
                    assert(chunks_read(evs) =~= chunks_read(pre));
                    assert(bytes_read(evs) =~= bytes_read(pre));
                }
            },
            _ => {
                assert(chunks_read(evs) =~= chunks_read(pre));
                assert(bytes_read(evs) =~= bytes_read(pre));
            },
        }
    }
}

/// One engine invocation of a global serialization: which direction's
/// queue it came from, and the chunk.
pub struct ScheduledCall {
    pub queue: int,
    pub chunk: Seq<u8>,
}

/// The global serialization of several per-direction queues: at each
/// step the executor picks one queue (`picks` is the scheduler's
/// choice), invokes that queue's next pending chunk, and moves on.  At
/// most one invocation exists per step — never two at once.  A pick of
/// a queue with nothing pending invokes nothing.  `pos[q]` is how many
/// of queue `q`'s chunks were invoked before this schedule began.
pub open spec fn merge_from(
    queues: Seq<Seq<Seq<u8>>>,
    pos: Seq<int>,
    picks: Seq<int>,
) -> Seq<ScheduledCall>
    decreases picks.len(),
{
    if picks.len() == 0 {
        Seq::empty()
    } else {
        let q = picks[0];
        if 0 <= q < queues.len() && 0 <= pos[q] < queues[q].len() {
            seq![ScheduledCall { queue: q, chunk: queues[q][pos[q]] }] + merge_from(
                queues,
                pos.update(q, pos[q] + 1),
                picks.drop_first(),
            )
        } else {
            merge_from(queues, pos, picks.drop_first())
        }
    }
}

/// The calls of one queue within a global serialization, in schedule
/// order.
pub open spec fn calls_of(sched: Seq<ScheduledCall>, q: int) -> Seq<Seq<u8>>
    decreases sched.len(),
{
    if sched.len() == 0 {
        Seq::empty()
    } else {
        let head: Seq<Seq<u8>> = if sched[0].queue == q {
            seq![sched[0].chunk]
        } else {
            Seq::empty()
        };
        head + calls_of(sched.drop_first(), q)
    }
}

/// Serialization keeps per-direction order: whatever global
/// interleaving the scheduler picks across connections and directions,
/// the chunks of one direction are invoked exactly in that direction's
/// queue order — the engine sees each stream's bytes in stream order.
/// Nothing is promised about the relative order of different queues.
pub proof fn lemma_serialization_keeps_queue_order(
    queues: Seq<Seq<Seq<u8>>>,
    pos: Seq<int>,
    picks: Seq<int>,
    q: int,
)
    requires
        pos.len() == queues.len(),
        0 <= q < queues.len(),
        0 <= pos[q] <= queues[q].len(),
        forall|k: int| 0 <= k < pos.len() ==> 0 <= #[trigger] pos[k],
    ensures
        calls_of(merge_from(queues, pos, picks), q).is_prefix_of(queues[q].skip(pos[q])),
    decreases picks.len(),
{
    let sched = merge_from(queues, pos, picks);
    let made = calls_of(sched, q);
    if picks.len() == 0 {
        assert(made =~= Seq::<Seq<u8>>::empty());
        assert(made.is_prefix_of(queues[q].skip(pos[q])));
    } else {
        let p = picks[0];
        if 0 <= p < queues.len() && 0 <= pos[p] < queues[p].len() {
            let pos2 = pos.update(p, pos[p] + 1);
            let rest = merge_from(queues, pos2, picks.drop_first());
            lemma_serialization_keeps_queue_order(queues, pos2, picks.drop_first(), q);
            let head = ScheduledCall { queue: p, chunk: queues[p][pos[p]] };
            assert(sched == seq![head] + rest);
            assert((seq![head] + rest).drop_first() =~= rest);
            if p == q {
                assert(made =~= seq![queues[q][pos[q]]] + calls_of(rest, q));
                let tail = queues[q].skip(pos[q] + 1);
                assert(calls_of(rest, q).is_prefix_of(tail));
                assert(queues[q].skip(pos[q]) =~= seq![queues[q][pos[q]]] + tail);
                assert(made.len() <= queues[q].skip(pos[q]).len());
                assert(made =~= queues[q].skip(pos[q]).subrange(0, made.len() as int));
            } else {
                assert(made =~= calls_of(rest, q));
                assert(pos2[q] == pos[q]);
            }
        } else {
            lemma_serialization_keeps_queue_order(queues, pos, picks.drop_first(), q);
            assert(made =~= calls_of(merge_from(queues, pos, picks.drop_first()), q));
        }
    }
}

/// A schedule that drained a direction's queue invoked exactly that
/// queue, in order.
pub proof fn lemma_complete_serialization_is_the_queue(
    queues: Seq<Seq<Seq<u8>>>,
    picks: Seq<int>,
    q: int,
)
    requires
        0 <= q < queues.len(),
        calls_of(merge_from(queues, Seq::new(queues.len(), |k: int| 0), picks), q).len()
            == queues[q].len(),
    ensures
        calls_of(merge_from(queues, Seq::new(queues.len(), |k: int| 0), picks), q) == queues[q],
{
    let zeros = Seq::new(queues.len(), |k: int| 0);
    lemma_serialization_keeps_queue_order(queues, zeros, picks, q);
    let made = calls_of(merge_from(queues, zeros, picks), q);
    assert(queues[q].skip(0) =~= queues[q]);
    assert(made =~= queues[q]);
}

/// What the serializing executor did, as values.
#[derive(Debug)]
pub struct HookLog {
    /// The chunks handed to the engine, in invocation order.
    pub invoked: Vec<Vec<u8>>,
    /// How many invocations raised an error.
    pub failures: usize,
}

/// Drains one direction's queue through the serializing executor, given
/// the outcome the engine reported for each invocation.  Every chunk is
/// taken in queue order and invoked exactly once; failures are counted
/// and never stop the drain.
pub fn drain_queue(q: &mut DispatchQueue, outcomes: &Vec<bool>) -> (log: HookLog)
    requires
        outcomes@.len() == old(q)@.len(),
    ensures
        final(q)@ == Seq::<Seq<u8>>::empty(),
        log.invoked@.map_values(|c: Vec<u8>| c@) == spec_drain(old(q)@, outcomes@).invoked,
        log.failures == spec_drain(old(q)@, outcomes@).failures,
{
    let ghost whole = q@;
    let mut invoked: Vec<Vec<u8>> = Vec::new();
    let mut failures: usize = 0;
    let mut i: usize = 0;
    let total = q.len();
    proof {
        lemma_drain_invokes_all(whole, outcomes@);
        assert(whole.take(0) =~= Seq::<Seq<u8>>::empty());
        assert(invoked@.map_values(|c: Vec<u8>| c@) =~= spec_drain(
            whole.take(0),
            outcomes@.take(0),
        ).invoked);
    }
    while i < total
        invariant
            i <= total,
            total == whole.len(),
            outcomes@.len() == whole.len(),
            q@ == whole.skip(i as int),
            invoked@.map_values(|c: Vec<u8>| c@) == spec_drain(
                whole.take(i as int),
                outcomes@.take(i as int),
            ).invoked,
            failures == spec_drain(whole.take(i as int), outcomes@.take(i as int)).failures,
            failures <= i,
        decreases total - i,
    {
        let next = q.take_next();
        let chunk = match next {
            Option::Some(c) => c,
            Option::None => {
                proof {
                    assert(false);
                }
                Vec::new()
            },
        };
        invoked.push(chunk);
        if !outcomes[i] {
            failures = failures + 1;
        }
        proof {
            let k = i as int;
            assert(whole.skip(k).drop_first() =~= whole.skip(k + 1));
            assert(whole.take(k + 1).drop_last() =~= whole.take(k));
            assert(outcomes@.take(k + 1).take(k) =~= outcomes@.take(k));
            lemma_drain_invokes_all(whole.take(k), outcomes@.take(k));
            lemma_drain_invokes_all(whole.take(k + 1), outcomes@.take(k + 1));
            assert(whole.take(k + 1).last() == whole[k]);
            assert(invoked@.map_values(|c: Vec<u8>| c@) =~= spec_drain(
                whole.take(k + 1),
                outcomes@.take(k + 1),
            ).invoked);
        }
        i = i + 1;
    }
    proof {
        assert(whole.take(whole.len() as int) =~= whole);
        assert(outcomes@.take(outcomes@.len() as int) =~= outcomes@);
        assert(whole.skip(whole.len() as int) =~= Seq::<Seq<u8>>::empty());
    }
    HookLog { invoked, failures }
}

} // verus!
