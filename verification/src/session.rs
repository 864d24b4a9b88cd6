//! One accepted connection: its identity and its two concurrent pumps.
//!
//! A session owns one inbound and one outbound duplex stream, splits each
//! into a read half and a write half, and runs two pumps: forward
//! (inbound read to outbound write) and backward (outbound read to
//! inbound write).  The session waits for whichever pump finishes first
//! and then considers the connection terminated, while the other pump is
//! left running until it observes end of stream or an error itself —
//! half-close tolerance.  Each pump shuts down the write half it owns
//! when it stops, so the peer observes end of stream promptly.

use vstd::prelude::*;
use crate::pump::PumpEvent;
use crate::pump::PumpEventView;
use crate::pump::PumpReport;
use crate::pump::bytes_read;
use crate::pump::clean_trace;
use crate::pump::complete_trace;
use crate::pump::lemma_byte_stream_transparency;
use crate::pump::lemma_shutdown_iff_done;
use crate::pump::run_pump;
use crate::pump::run_trace;
use crate::pump::views_of;

verus! {

/// One of the two directions of a session.
#[derive(Clone, Copy, Debug, PartialEq, Eq, Structural)]
pub enum Direction {
    /// Inbound read half to outbound write half.
    Forward,
    /// Outbound read half to inbound write half.
    Backward,
}

/// The identity of one accepted connection, fixed when it is accepted
/// and used to correlate everything observed about it.
pub struct ConnectionIdentity {
    listen_address: String,
    connect_address: String,
    downstream_peer_address: String,
}

/// Mathematical image of a [`ConnectionIdentity`].
pub struct ConnectionIdentityView {
    pub listen_address: Seq<char>,
    pub connect_address: Seq<char>,
    pub downstream_peer_address: Seq<char>,
}

impl View for ConnectionIdentity {
    type V = ConnectionIdentityView;

    closed spec fn view(&self) -> ConnectionIdentityView {
        ConnectionIdentityView {
            listen_address: self.listen_address@,
            connect_address: self.connect_address@,
            downstream_peer_address: self.downstream_peer_address@,
        }
    }
}

impl ConnectionIdentity {
    pub fn new(listen_address: String, connect_address: String, downstream_peer_address: String)
        -> (r: ConnectionIdentity)
        ensures
            r@.listen_address == listen_address@,
            r@.connect_address == connect_address@,
            r@.downstream_peer_address == downstream_peer_address@,
    {
        ConnectionIdentity { listen_address, connect_address, downstream_peer_address }
    }

    pub fn listen_address(&self) -> (r: &String)
        ensures
            r@ == self@.listen_address,
    {
        &self.listen_address
    }

    pub fn connect_address(&self) -> (r: &String)
        ensures
            r@ == self@.connect_address,
    {
        &self.connect_address
    }

    pub fn downstream_peer_address(&self) -> (r: &String)
        ensures
            r@ == self@.downstream_peer_address,
    {
        &self.downstream_peer_address
    }
}

/// The transport events one connection produced: what each direction's
/// source and destination reported to its pump, and which direction
/// finished first.
#[derive(Debug)]
pub struct SessionTrace {
    /// Events of the inbound-to-outbound pump.
    pub forward_events: Vec<PumpEvent>,
    /// Events of the outbound-to-inbound pump.
    pub backward_events: Vec<PumpEvent>,
    /// The direction whose pump finished first.
    pub first_done: Direction,
}

/// Mathematical image of a [`SessionTrace`].
pub struct SessionTraceView {
    pub forward: Seq<PumpEventView>,
    pub backward: Seq<PumpEventView>,
    pub first_done: Direction,
}

impl View for SessionTrace {
    type V = SessionTraceView;

    open spec fn view(&self) -> SessionTraceView {
        SessionTraceView {
            forward: views_of(self.forward_events@),
            backward: views_of(self.backward_events@),
            first_done: self.first_done,
        }
    }
}

/// Everything externally visible about a terminated session.
#[derive(Debug)]
pub struct SessionReport {
    /// The forward pump's behaviour.
    pub forward: PumpReport,
    /// The backward pump's behaviour.
    pub backward: PumpReport,
    /// Which direction finished first and so ended the session's wait.
    pub closed_first: Direction,
}

/// Whether a report is exactly the specified behaviour of a session
/// with this trace: each direction the mathematical run of its own
/// events, and the first completion recorded as it happened.
pub open spec fn report_matches_trace(r: SessionReport, t: SessionTraceView) -> bool {
    &&& r.forward.state@ == run_trace(t.forward).state
    &&& r.forward.written@ == run_trace(t.forward).written
    &&& r.forward.observed@.map_values(|c: Vec<u8>| c@) == run_trace(t.forward).observed
    &&& r.forward.shutdown_sent == (run_trace(t.forward).shutdowns > 0)
    &&& r.backward.state@ == run_trace(t.backward).state
    &&& r.backward.written@ == run_trace(t.backward).written
    &&& r.backward.observed@.map_values(|c: Vec<u8>| c@) == run_trace(t.backward).observed
    &&& r.backward.shutdown_sent == (run_trace(t.backward).shutdowns > 0)
    &&& r.closed_first == t.first_done
}

/// Folds the event traces of a session's two pumps to its externally
/// visible behaviour.  The two directions are folded independently of
/// one another: nothing one pump does enters the other's report.  Which
/// direction finished first is the scheduler's choice and is recorded as
/// given.
pub fn run_session(
    forward_events: &Vec<PumpEvent>,
    backward_events: &Vec<PumpEvent>,
    first_done: Direction,
) -> (r: SessionReport)
    ensures
        r.forward.state@ == run_trace(views_of(forward_events@)).state,
        r.forward.written@ == run_trace(views_of(forward_events@)).written,
        r.forward.observed@.map_values(|c: Vec<u8>| c@) == run_trace(
            views_of(forward_events@),
        ).observed,
        r.forward.shutdown_sent == (run_trace(views_of(forward_events@)).shutdowns > 0),
        r.backward.state@ == run_trace(views_of(backward_events@)).state,
        r.backward.written@ == run_trace(views_of(backward_events@)).written,
        r.backward.observed@.map_values(|c: Vec<u8>| c@) == run_trace(
            views_of(backward_events@),
        ).observed,
        r.backward.shutdown_sent == (run_trace(views_of(backward_events@)).shutdowns > 0),
        r.closed_first == first_done,
{
    SessionReport {
        forward: run_pump(forward_events),
        backward: run_pump(backward_events),
        closed_first: first_done,
    }
}

/// Echo round trip: if the forward pump relays cleanly, the upstream
/// echoes back exactly the bytes it received, and the backward pump
/// relays cleanly too, then the client reads back exactly the bytes it
/// wrote — byte for byte, however either transport chunked them.
pub proof fn lemma_echo_round_trip(fwd: Seq<PumpEventView>, bwd: Seq<PumpEventView>)
    requires
        clean_trace(fwd),
        clean_trace(bwd),
        bytes_read(bwd) == run_trace(fwd).written,
    ensures
        run_trace(bwd).written == bytes_read(fwd),
{
    lemma_byte_stream_transparency(fwd);
    lemma_byte_stream_transparency(bwd);
}

/// Shutdown propagation: whenever a direction's pump stops — orderly end
/// of stream after the peer half-closed, a read error, or a write error —
/// it has shut down the write half it owns, exactly once.  This explicit
/// step, not value-drop timing, is what makes the socket on the other
/// side observe end of stream on its corresponding read.
pub proof fn lemma_shutdown_propagation(evs: Seq<PumpEventView>)
    requires
        complete_trace(evs),
    ensures
        run_trace(evs).shutdowns == 1,
{
    lemma_shutdown_iff_done(evs);
}

/// A pump that is still relaying has not shut anything down: the write
/// half is released at termination and only then.
pub proof fn lemma_no_early_shutdown(evs: Seq<PumpEventView>)
    requires
        !(run_trace(evs).state is Done),
    ensures
        run_trace(evs).shutdowns == 0,
{
    lemma_shutdown_iff_done(evs);
}

} // verus!
