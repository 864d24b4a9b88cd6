//! The byte pump: one direction of one relayed connection.
//!
//! A pump repeatedly reads a chunk from its source stream, hands the chunk
//! to the inspection dispatch queue, and writes the chunk in full to its
//! destination stream.  An empty read is the orderly end of the stream; a
//! read or write error ends the pump as well.  Whatever ends it, the pump
//! explicitly shuts down the write half it owns, so the peer observes end
//! of stream promptly instead of waiting on resource-release timing.
//!
//! The runtime performs the reads and writes and reports each completion
//! as a [`PumpEvent`]; [`pump_step`] is the verified transition that tells
//! the runtime what to do next, and [`run_pump`] folds a whole event trace
//! to the pump's externally visible behaviour: the bytes flushed to the
//! destination, the chunks handed to the inspection hook, and the explicit
//! shutdown of the write half.

use vstd::prelude::*;

verus! {

/// Why a pump stopped.
#[derive(Clone, Copy, Debug, PartialEq, Eq, Structural)]
pub enum PumpOutcome {
    /// The source presented an empty read: orderly end of stream.
    SourceClosed,
    /// Reading from the source failed.
    ReadError,
    /// Writing a chunk to the destination failed.
    WriteError,
}

/// What the transport reported to the pump at one suspension point.
#[derive(Debug, PartialEq, Eq)]
pub enum PumpEvent {
    /// A read completed and presented these bytes; an empty chunk is the
    /// in-band end-of-stream signal.
    ChunkRead(Vec<u8>),
    /// Reading from the source failed.
    ReadFailed,
    /// The pending chunk was flushed to the destination in full.
    WriteFinished,
    /// Writing the pending chunk to the destination failed.
    WriteFailed,
}

/// Mathematical image of a [`PumpEvent`].
pub enum PumpEventView {
    ChunkRead(Seq<u8>),
    ReadFailed,
    WriteFinished,
    WriteFailed,
}

impl View for PumpEvent {
    type V = PumpEventView;

    open spec fn view(&self) -> PumpEventView {
        match self {
            PumpEvent::ChunkRead(d) => PumpEventView::ChunkRead(d@),
            PumpEvent::ReadFailed => PumpEventView::ReadFailed,
            PumpEvent::WriteFinished => PumpEventView::WriteFinished,
            PumpEvent::WriteFailed => PumpEventView::WriteFailed,
        }
    }
}

/// Where the pump stands between two events.
#[derive(Debug, PartialEq, Eq)]
pub enum PumpState {
    /// Waiting for the next read to complete.
    AwaitRead,
    /// A chunk was read and dispatched; waiting for its write to finish.
    AwaitWrite(Vec<u8>),
    /// The pump has stopped and has shut down its write half.
    Done(PumpOutcome),
}

/// Mathematical image of a [`PumpState`].
pub enum PumpStateView {
    AwaitRead,
    AwaitWrite(Seq<u8>),
    Done(PumpOutcome),
}

impl View for PumpState {
    type V = PumpStateView;

    open spec fn view(&self) -> PumpStateView {
        match self {
            PumpState::AwaitRead => PumpStateView::AwaitRead,
            PumpState::AwaitWrite(d) => PumpStateView::AwaitWrite(d@),
            PumpState::Done(o) => PumpStateView::Done(*o),
        }
    }
}

/// What the runtime must do after feeding one event to the pump.
#[derive(Debug, PartialEq, Eq)]
pub enum PumpAction {
    /// Start the next read from the source.
    ReadMore,
    /// Hand this chunk to the inspection dispatch queue and write it, in
    /// full, to the destination.
    ForwardChunk(Vec<u8>),
    /// Shut down the destination's write half; the pump has stopped.
    ShutdownWrite,
    /// Nothing: the event did not fit the state and was ignored.
    Idle,
}

/// Mathematical image of a [`PumpAction`].
pub enum PumpActionView {
    ReadMore,
    ForwardChunk(Seq<u8>),
    ShutdownWrite,
    Idle,
}

impl View for PumpAction {
    type V = PumpActionView;

    open spec fn view(&self) -> PumpActionView {
        match self {
            PumpAction::ReadMore => PumpActionView::ReadMore,
            PumpAction::ForwardChunk(d) => PumpActionView::ForwardChunk(d@),
            PumpAction::ShutdownWrite => PumpActionView::ShutdownWrite,
            PumpAction::Idle => PumpActionView::Idle,
        }
    }
}

/// The transition of the pump: next state and the action the runtime must
/// perform.  Events that do not fit the state leave it unchanged.
pub open spec fn spec_pump_step(st: PumpStateView, ev: PumpEventView) -> (PumpStateView,
    PumpActionView) {
    match (st, ev) {
        (PumpStateView::AwaitRead, PumpEventView::ChunkRead(d)) => if d.len() == 0 {
            (PumpStateView::Done(PumpOutcome::SourceClosed), PumpActionView::ShutdownWrite)
        } else {
            (PumpStateView::AwaitWrite(d), PumpActionView::ForwardChunk(d))
        },
        (PumpStateView::AwaitRead, PumpEventView::ReadFailed) => (
            PumpStateView::Done(PumpOutcome::ReadError),
            PumpActionView::ShutdownWrite,
        ),
        (PumpStateView::AwaitWrite(_), PumpEventView::WriteFinished) => (
            PumpStateView::AwaitRead,
            PumpActionView::ReadMore,
        ),
        (PumpStateView::AwaitWrite(_), PumpEventView::WriteFailed) => (
            PumpStateView::Done(PumpOutcome::WriteError),
            PumpActionView::ShutdownWrite,
        ),
        (s, _) => (s, PumpActionView::Idle),
    }
}

/// Whether an event can actually arrive in a state: reads complete only
/// while the pump awaits a read, writes only while it awaits a write.
pub open spec fn event_fits(st: PumpStateView, ev: PumpEventView) -> bool {
    match ev {
        PumpEventView::ChunkRead(_) => st is AwaitRead,
        PumpEventView::ReadFailed => st is AwaitRead,
        PumpEventView::WriteFinished => st is AwaitWrite,
        PumpEventView::WriteFailed => st is AwaitWrite,
    }
}

/// Everything externally visible about a pump after a trace of events.
pub struct PumpRun {
    /// Where the pump stands.
    pub state: PumpStateView,
    /// The bytes confirmed flushed to the destination, in order.
    pub written: Seq<u8>,
    /// The chunks handed to the inspection dispatch queue, in order.
    pub observed: Seq<Seq<u8>>,
    /// How often the write half was shut down.
    pub shutdowns: nat,
}

/// A pump that has processed no events: waiting for the first read.
pub open spec fn initial_run() -> PumpRun {
    PumpRun {
        state: PumpStateView::AwaitRead,
        written: Seq::empty(),
        observed: Seq::empty(),
        shutdowns: 0,
    }
}

/// One event applied to an accumulated run: step the state, record a
/// flushed chunk, a dispatched chunk, or a shutdown.
pub open spec fn apply_event(r: PumpRun, ev: PumpEventView) -> PumpRun {
    let (next, act) = spec_pump_step(r.state, ev);
    PumpRun {
        state: next,
        written: match (r.state, ev) {
            (PumpStateView::AwaitWrite(d), PumpEventView::WriteFinished) => r.written + d,
            _ => r.written,
        },
        observed: match act {
            PumpActionView::ForwardChunk(d) => r.observed.push(d),
            _ => r.observed,
        },
        shutdowns: match act {
            PumpActionView::ShutdownWrite => r.shutdowns + 1,
            _ => r.shutdowns,
        },
    }
}

/// The pump's behaviour over a whole event trace.
pub open spec fn run_trace(evs: Seq<PumpEventView>) -> PumpRun
    decreases evs.len(),
{
    if evs.len() == 0 {
        initial_run()
    } else {
        apply_event(run_trace(evs.drop_last()), evs.last())
    }
}

/// A trace the transport can actually produce: every event fits the state
/// the pump is in when it arrives.
pub open spec fn valid_trace(evs: Seq<PumpEventView>) -> bool {
    forall|i: int|
        0 <= i < evs.len() ==> #[trigger] event_fits(run_trace(evs.take(i)).state, evs[i])
}

/// A valid trace after which the pump has stopped.
pub open spec fn complete_trace(evs: Seq<PumpEventView>) -> bool {
    valid_trace(evs) && run_trace(evs).state is Done
}

/// A complete trace that ended in an orderly end of stream: no read or
/// write ever failed.
pub open spec fn clean_trace(evs: Seq<PumpEventView>) -> bool {
    valid_trace(evs) && run_trace(evs).state == PumpStateView::Done(PumpOutcome::SourceClosed)
}

/// All bytes the source presented over the trace, in read order,
/// regardless of how the transport chunked them.
pub open spec fn bytes_read(evs: Seq<PumpEventView>) -> Seq<u8>
    decreases evs.len(),
{
    if evs.len() == 0 {
        Seq::empty()
    } else {
        bytes_read(evs.drop_last()) + (match evs.last() {
            PumpEventView::ChunkRead(d) => d,
            _ => Seq::empty(),
        })
    }
}

/// The non-empty chunks the source presented, in read order: what the
/// inspection hook is owed, per direction.
pub open spec fn chunks_read(evs: Seq<PumpEventView>) -> Seq<Seq<u8>>
    decreases evs.len(),
{
    if evs.len() == 0 {
        Seq::empty()
    } else {
        chunks_read(evs.drop_last()) + (match evs.last() {
            PumpEventView::ChunkRead(d) => if d.len() > 0 {
                seq![d]
            } else {
                Seq::empty()
            },
            _ => Seq::empty(),
        })
    }
}

/// A prefix of a valid trace is a valid trace.
pub proof fn lemma_valid_trace_prefix(evs: Seq<PumpEventView>, n: int)
    requires
        valid_trace(evs),
        0 <= n <= evs.len(),
    ensures
        valid_trace(evs.take(n)),
{
    let p = evs.take(n);
    assert forall|i: int|
        0 <= i < p.len() implies #[trigger] event_fits(run_trace(p.take(i)).state, p[i]) by {
        assert(p.take(i) =~= evs.take(i));
        assert(event_fits(run_trace(evs.take(i)).state, evs[i]));
    }
}

/// The write half is shut down exactly when the pump has stopped, and
/// exactly once: the explicit shutdown-propagation step of every
/// termination path.  This holds of every trace, valid or not.
pub proof fn lemma_shutdown_iff_done(evs: Seq<PumpEventView>)
    ensures
        run_trace(evs).shutdowns == (if run_trace(evs).state is Done {
            1nat
        } else {
            0nat
        }),
    decreases evs.len(),
{
    if evs.len() > 0 {
        lemma_shutdown_iff_done(evs.drop_last());
    }
}

/// The running invariant of a pump on a valid trace:
/// - the inspection queue received exactly the non-empty chunks read, in
///   read order;
/// - the bytes flushed to the destination are exactly the bytes read,
///   short of at most the one chunk whose write is pending or failed;
/// - in every case the flushed bytes are a prefix of the bytes read: the
///   pump neither invents, drops, nor reorders bytes.
pub proof fn lemma_pump_run_invariant(evs: Seq<PumpEventView>)
    requires
        valid_trace(evs),
    ensures
        run_trace(evs).observed == chunks_read(evs),
        (run_trace(evs).state is AwaitRead ==> run_trace(evs).written == bytes_read(evs)),
        (run_trace(evs).state matches PumpStateView::AwaitWrite(d) ==> run_trace(evs).written + d
            == bytes_read(evs)),
        (run_trace(evs).state == PumpStateView::Done(PumpOutcome::SourceClosed) ==> run_trace(
            evs,
        ).written == bytes_read(evs)),
        (run_trace(evs).state == PumpStateView::Done(PumpOutcome::ReadError) ==> run_trace(
            evs,
        ).written == bytes_read(evs)),
        run_trace(evs).written.is_prefix_of(bytes_read(evs)),
    decreases evs.len(),
{
    if evs.len() == 0 {
        assert(run_trace(evs).written =~= bytes_read(evs));
        assert(run_trace(evs).observed =~= chunks_read(evs));
    } else {
        let pre = evs.drop_last();
        let ev = evs.last();
        let rp = run_trace(pre);
        let r = run_trace(evs);
        assert(evs.take(evs.len() - 1) =~= pre);
        lemma_valid_trace_prefix(evs, evs.len() - 1);
        lemma_pump_run_invariant(pre);
        assert(event_fits(run_trace(evs.take(evs.len() - 1)).state, evs[evs.len() - 1]));
        assert(event_fits(rp.state, ev));
        match ev {
            PumpEventView::ChunkRead(d) => {
                assert(rp.state is AwaitRead);
                assert(bytes_read(evs) == bytes_read(pre) + d);
                if d.len() == 0 {
                    assert(r.written =~= bytes_read(evs));
                    assert(r.observed =~= chunks_read(evs));
                } else {
                    assert(r.observed =~= chunks_read(evs));
                    assert(r.written + d =~= bytes_read(evs));
                    assert(bytes_read(evs).subrange(0, r.written.len() as int) =~= r.written);
                }
            },
            PumpEventView::ReadFailed => {
                assert(rp.state is AwaitRead);
                assert(bytes_read(evs) =~= bytes_read(pre));
                assert(chunks_read(evs) =~= chunks_read(pre));
            },
            PumpEventView::WriteFinished => {
                assert(rp.state matches PumpStateView::AwaitWrite(_));
                assert(bytes_read(evs) =~= bytes_read(pre));
                assert(chunks_read(evs) =~= chunks_read(pre));
            },
            PumpEventView::WriteFailed => {
                assert(rp.state matches PumpStateView::AwaitWrite(_));
                assert(bytes_read(evs) =~= bytes_read(pre));
                assert(chunks_read(evs) =~= chunks_read(pre));
                assert(bytes_read(evs).subrange(0, r.written.len() as int) =~= r.written);
            },
        }
    }
}

/// Byte-stream transparency: on a trace that ended in an orderly end of
/// stream, the destination received exactly the bytes the source
/// presented, byte for byte, however the transport chunked them.
pub proof fn lemma_byte_stream_transparency(evs: Seq<PumpEventView>)
    requires
        clean_trace(evs),
    ensures
        run_trace(evs).written == bytes_read(evs),
{
    lemma_pump_run_invariant(evs);
}

/// Chunk boundaries are immaterial: two clean traces presenting the same
/// byte sequence, however differently chunked, flush the same bytes.
pub proof fn lemma_chunking_irrelevant(evs1: Seq<PumpEventView>, evs2: Seq<PumpEventView>)
    requires
        clean_trace(evs1),
        clean_trace(evs2),
        bytes_read(evs1) == bytes_read(evs2),
    ensures
        run_trace(evs1).written == run_trace(evs2).written,
{
    lemma_byte_stream_transparency(evs1);
    lemma_byte_stream_transparency(evs2);
}

/// Per-direction hook ordering: the inspection queue receives exactly the
/// chunks the source presented, in read order — also when a write later
/// fails, since a chunk is dispatched before it is written.
pub proof fn lemma_hook_receives_chunks_in_order(evs: Seq<PumpEventView>)
    requires
        valid_trace(evs),
    ensures
        run_trace(evs).observed == chunks_read(evs),
{
    lemma_pump_run_invariant(evs);
}

/// Makes a copy of a chunk.
fn copy_chunk(v: &Vec<u8>) -> (r: Vec<u8>)
    ensures
        r@ == v@,
{
    let mut r: Vec<u8> = Vec::new();
    let mut i: usize = 0;
    while i < v.len()
        invariant
            i <= v.len(),
            r@ == v@.take(i as int),
        decreases v.len() - i,
    {
        r.push(v[i]);
        proof {
            assert(v@.take(i as int).push(v@[i as int]) =~= v@.take(i as int + 1));
        }
        i = i + 1;
    }
    proof {
        assert(v@.take(v@.len() as int) =~= v@);
    }
    r
}

/// One verified transition of the pump: feed it what the transport
/// reported, get the next state and what to do.  The runtime loop calls
/// this after every completed read and write.
pub fn pump_step(st: PumpState, ev: PumpEvent) -> (r: (PumpState, PumpAction))
    ensures
        r.0@ == spec_pump_step(st@, ev@).0,
        r.1@ == spec_pump_step(st@, ev@).1,
{
    match (st, ev) {
        (PumpState::AwaitRead, PumpEvent::ChunkRead(d)) => {
            if d.len() == 0 {
                (PumpState::Done(PumpOutcome::SourceClosed), PumpAction::ShutdownWrite)
            } else {
                let pending = copy_chunk(&d);
                (PumpState::AwaitWrite(pending), PumpAction::ForwardChunk(d))
            }
        },
        (PumpState::AwaitRead, PumpEvent::ReadFailed) => (
            PumpState::Done(PumpOutcome::ReadError),
            PumpAction::ShutdownWrite,
        ),
        (PumpState::AwaitWrite(_), PumpEvent::WriteFinished) => (
            PumpState::AwaitRead,
            PumpAction::ReadMore,
        ),
        (PumpState::AwaitWrite(d), PumpEvent::WriteFailed) => (
            PumpState::Done(PumpOutcome::WriteError),
            PumpAction::ShutdownWrite,
        ),
        (s, _) => (s, PumpAction::Idle),
    }
}

/// The views of a trace of events.
pub open spec fn views_of(evs: Seq<PumpEvent>) -> Seq<PumpEventView> {
    evs.map_values(|e: PumpEvent| e@)
}

/// Everything externally visible about a finished pump, as values.
#[derive(Debug)]
pub struct PumpReport {
    /// Where the pump stands after the trace.
    pub state: PumpState,
    /// The bytes confirmed flushed to the destination, in order.
    pub written: Vec<u8>,
    /// The chunks handed to the inspection dispatch queue, in order.
    pub observed: Vec<Vec<u8>>,
    /// Whether the write half was shut down.
    pub shutdown_sent: bool,
}

/// Folds a whole event trace to the pump's externally visible behaviour.
/// The report is exactly the mathematical [`run_trace`] of the events.
pub fn run_pump(events: &Vec<PumpEvent>) -> (r: PumpReport)
    ensures
        r.state@ == run_trace(views_of(events@)).state,
        r.written@ == run_trace(views_of(events@)).written,
        r.observed@.map_values(|c: Vec<u8>| c@) == run_trace(views_of(events@)).observed,
        r.shutdown_sent == (run_trace(views_of(events@)).shutdowns > 0),
{
    let mut state = PumpState::AwaitRead;
    let mut written: Vec<u8> = Vec::new();
    let mut observed: Vec<Vec<u8>> = Vec::new();
    let mut shutdown_sent = false;
    let mut i: usize = 0;
    proof {
        assert(views_of(events@).take(0) =~= Seq::<PumpEventView>::empty());
        assert(written@ =~= run_trace(views_of(events@).take(0)).written);
        assert(observed@.map_values(|c: Vec<u8>| c@) =~= run_trace(
            views_of(events@).take(0),
        ).observed);
    }
    while i < events.len()
        invariant
            i <= events.len(),
            state@ == run_trace(views_of(events@).take(i as int)).state,
            written@ == run_trace(views_of(events@).take(i as int)).written,
            observed@.map_values(|c: Vec<u8>| c@) == run_trace(
                views_of(events@).take(i as int),
            ).observed,
            shutdown_sent == (run_trace(views_of(events@).take(i as int)).shutdowns > 0),
        decreases events.len() - i,
    {
        let ghost vs = views_of(events@);
        let ghost prefix = vs.take(i as int);
        let ghost before = run_trace(prefix);
        let ev = &events[i];
        match ev {
            PumpEvent::ChunkRead(d) => {
                match state {
                    PumpState::AwaitRead => {
                        if d.len() == 0 {
                            state = PumpState::Done(PumpOutcome::SourceClosed);
                            shutdown_sent = true;
                        } else {
                            let pending = copy_chunk(d);
                            let dispatched = copy_chunk(d);
                            observed.push(dispatched);
                            state = PumpState::AwaitWrite(pending);
                        }
                    },
                    other => {
                        state = other;
                    },
                }
            },
            PumpEvent::ReadFailed => {
                match state {
                    PumpState::AwaitRead => {
                        state = PumpState::Done(PumpOutcome::ReadError);
                        shutdown_sent = true;
                    },
                    other => {
                        state = other;
                    },
                }
            },
            PumpEvent::WriteFinished => {
                match state {
                    PumpState::AwaitWrite(pending) => {
                        let mut pending = pending;
                        written.append(&mut pending);
                        state = PumpState::AwaitRead;
                    },
                    other => {
                        state = other;
                    },
                }
            },
            PumpEvent::WriteFailed => {
                match state {
                    PumpState::AwaitWrite(_) => {
                        state = PumpState::Done(PumpOutcome::WriteError);
                        shutdown_sent = true;
                    },
                    other => {
                        state = other;
                    },
                }
            },
        }
        proof {
            assert(vs.take(i as int + 1).drop_last() =~= prefix);
            assert(vs.take(i as int + 1).last() == events@[i as int]@);
            assert(run_trace(vs.take(i as int + 1)) == apply_event(before, events@[i as int]@));
            lemma_shutdown_iff_done(prefix);
            lemma_shutdown_iff_done(vs.take(i as int + 1));
            assert(observed@.map_values(|c: Vec<u8>| c@) =~= run_trace(
                vs.take(i as int + 1),
            ).observed);
            assert(written@ =~= run_trace(vs.take(i as int + 1)).written);
        }
        i = i + 1;
    }
    proof {
        assert(views_of(events@).take(events@.len() as int) =~= views_of(events@));
    }
    PumpReport { state, written, observed, shutdown_sent }
}

} // verus!
