//! One listener: a concrete listen address, a connect target, and the
//! accept-loop policy.
//!
//! A listener binds its listen address once; a bind failure is fatal for
//! this listener alone — it stays inert and its siblings run on.  Once
//! bound, the accept loop never dies from an event: an accept failure is
//! logged and the loop continues; an accepted connection whose upstream
//! connect fails is dropped and the loop continues; a connection whose
//! upstream connected gets a session of its own that never blocks the
//! loop.  There is no retry and no backoff.

use vstd::prelude::*;

verus! {

/// One listener: a concrete listen address and the `host:port` target
/// every accepted connection is forwarded to.
#[derive(Debug)]
pub struct Tcp {
    listen_address: String,
    connect_address: String,
}

/// Mathematical image of a [`Tcp`].
pub struct TcpView {
    pub listen_address: Seq<char>,
    pub connect_address: Seq<char>,
}

impl View for Tcp {
    type V = TcpView;

    closed spec fn view(&self) -> TcpView {
        TcpView {
            listen_address: self.listen_address@,
            connect_address: self.connect_address@,
        }
    }
}

impl Tcp {
    pub fn new(listen_address: String, connect_address: &str) -> (r: Tcp)
        ensures
            r@.listen_address == listen_address@,
            r@.connect_address == connect_address@,
    {
        Tcp { listen_address, connect_address: connect_address.to_owned() }
    }

    pub fn listen_address(&self) -> (r: &String)
        ensures
            r@ == self@.listen_address,
    {
        &self.listen_address
    }

    pub fn connect_address(&self) -> (r: &String)
        ensures
            r@ == self@.connect_address,
    {
        &self.connect_address
    }
}

/// Picks the upstream target from what the connect specification
/// resolved to, once, at listener setup: the first address of the
/// ordered sequence.  Zero resolved addresses are a resolution failure,
/// fatal for this listener alone — it stays inert and its siblings run
/// on.
pub fn choose_connect_target(resolved: &Vec<String>) -> (r: Option<&String>)
    ensures
        (resolved@.len() == 0 ==> r is None),
        (resolved@.len() > 0 ==> (r matches Some(a) && a@ == resolved@[0]@)),
{
    if resolved.len() == 0 {
        Option::None
    } else {
        Option::Some(&resolved[0])
    }
}

/// What one iteration of the accept loop observed.
#[derive(Clone, Copy, Debug, PartialEq, Eq, Structural)]
pub enum ListenerEvent {
    /// `accept` failed; such failures are transient.
    AcceptError,
    /// A connection was accepted but connecting to the upstream target
    /// failed.
    ConnectFailed,
    /// A connection was accepted and its upstream connection opened.
    Connected,
}

/// What the accept loop does in response to one event.  Every action
/// continues the loop: no event terminates a listener.
#[derive(Clone, Copy, Debug, PartialEq, Eq, Structural)]
pub enum ListenerAction {
    /// Log the accept failure and keep accepting.
    ContinueAccepting,
    /// Close the accepted inbound connection — no retry, no backoff —
    /// and keep accepting.
    DropInbound,
    /// Run a session for this connection as an independent unit of
    /// concurrency and keep accepting at once.
    SpawnSession,
}

/// The accept-loop policy as a function of the event.
pub open spec fn spec_listener_step(ev: ListenerEvent) -> ListenerAction {
    match ev {
        ListenerEvent::AcceptError => ListenerAction::ContinueAccepting,
        ListenerEvent::ConnectFailed => ListenerAction::DropInbound,
        ListenerEvent::Connected => ListenerAction::SpawnSession,
    }
}

/// The verified accept-loop decision: the runtime calls this for every
/// accept or connect completion and performs the returned action.
pub fn listener_step(ev: &ListenerEvent) -> (a: ListenerAction)
    ensures
        a == spec_listener_step(*ev),
{
    match ev {
        ListenerEvent::AcceptError => ListenerAction::ContinueAccepting,
        ListenerEvent::ConnectFailed => ListenerAction::DropInbound,
        ListenerEvent::Connected => ListenerAction::SpawnSession,
    }
}

/// What a bound listener has done after a sequence of accept-loop
/// events.
pub struct ListenerRun {
    /// Sessions spawned: one per accepted connection whose upstream
    /// connected.
    pub sessions: nat,
    /// Accepted connections dropped because their upstream connect
    /// failed.
    pub dropped: nat,
    /// Accept failures survived.
    pub accept_errors: nat,
}

/// Folds the accept loop over its events.  Every event is processed:
/// the loop outlives each of them.
pub open spec fn listener_run(evs: Seq<ListenerEvent>) -> ListenerRun
    decreases evs.len(),
{
    if evs.len() == 0 {
        ListenerRun { sessions: 0, dropped: 0, accept_errors: 0 }
    } else {
        let r = listener_run(evs.drop_last());
        match evs.last() {
            ListenerEvent::AcceptError => ListenerRun { accept_errors: r.accept_errors + 1, ..r },
            ListenerEvent::ConnectFailed => ListenerRun { dropped: r.dropped + 1, ..r },
            ListenerEvent::Connected => ListenerRun { sessions: r.sessions + 1, ..r },
        }
    }
}

/// The behaviour of one listener, bind outcome included.  A listener
/// that failed to bind is inert: it processes no events and spawns
/// nothing; its siblings are unaffected.
pub open spec fn spec_listener_report(bind_ok: bool, evs: Seq<ListenerEvent>) -> ListenerRun {
    if bind_ok {
        listener_run(evs)
    } else {
        ListenerRun { sessions: 0, dropped: 0, accept_errors: 0 }
    }
}

/// Everything externally visible about one listener, as values.
#[derive(Debug, PartialEq, Eq)]
pub struct ListenerReport {
    /// Whether the listen address was bound.
    pub bound: bool,
    /// Sessions spawned.
    pub sessions_spawned: usize,
    /// Accepted connections dropped after a failed upstream connect.
    pub inbound_dropped: usize,
    /// Accept failures survived.
    pub accept_errors: usize,
}

/// Whether a report is exactly the specified behaviour of a listener
/// with this bind outcome and these events.
pub open spec fn report_matches(r: ListenerReport, bind_ok: bool, evs: Seq<ListenerEvent>)
    -> bool {
    let m = spec_listener_report(bind_ok, evs);
    &&& r.bound == bind_ok
    &&& r.sessions_spawned == m.sessions
    &&& r.inbound_dropped == m.dropped
    &&& r.accept_errors == m.accept_errors
}

/// Folds one listener's whole life to its externally visible behaviour:
/// the bind outcome and what the accept loop did with every event.
pub fn run_listener(bind_ok: bool, events: &Vec<ListenerEvent>) -> (r: ListenerReport)
    ensures
        report_matches(r, bind_ok, events@),
{
    if !bind_ok {
        ListenerReport { bound: false, sessions_spawned: 0, inbound_dropped: 0, accept_errors: 0 }
    } else {
        let mut sessions_spawned: usize = 0;
        let mut inbound_dropped: usize = 0;
        let mut accept_errors: usize = 0;
        let mut i: usize = 0;
        proof {
            assert(events@.take(0) =~= Seq::<ListenerEvent>::empty());
        }
        while i < events.len()
            invariant
                i <= events.len(),
                sessions_spawned == listener_run(events@.take(i as int)).sessions,
                inbound_dropped == listener_run(events@.take(i as int)).dropped,
                accept_errors == listener_run(events@.take(i as int)).accept_errors,
                sessions_spawned + inbound_dropped + accept_errors == i,
            decreases events.len() - i,
        {
            let action = listener_step(&events[i]);
            match action {
                ListenerAction::ContinueAccepting => {
                    accept_errors = accept_errors + 1;
                },
                ListenerAction::DropInbound => {
                    inbound_dropped = inbound_dropped + 1;
                },
                ListenerAction::SpawnSession => {
                    sessions_spawned = sessions_spawned + 1;
                },
            }
            proof {
                assert(events@.take(i as int + 1).drop_last() =~= events@.take(i as int));
                assert(events@.take(i as int + 1).last() == events@[i as int]);
            }
            i = i + 1;
        }
        proof {
            assert(events@.take(events@.len() as int) =~= events@);
        }
        ListenerReport { bound: true, sessions_spawned, inbound_dropped, accept_errors }
    }
}

} // verus!
