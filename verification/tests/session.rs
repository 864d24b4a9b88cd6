//! Sessions and the two scenarios: the ping echo through a configured
//! rule, and the proxy dropping a connection whose upstream refused.

use portproxy::config::Proxy;
use portproxy::engine::{plan_proxies, startup, Resolution};
use portproxy::config::Config;
use portproxy::proxy::{
    choose_connect_target, listener_step, run_listener, ListenerAction, ListenerEvent, Tcp,
};
use portproxy::pump::{PumpEvent, PumpOutcome, PumpState};
use portproxy::session::{run_session, ConnectionIdentity, Direction};

#[test]
fn identity_keeps_its_addresses() {
    let id = ConnectionIdentity::new(
        "127.0.0.1:18001".to_string(),
        "127.0.0.1:18000".to_string(),
        "127.0.0.1:50123".to_string(),
    );
    assert_eq!(id.listen_address().as_str(), "127.0.0.1:18001");
    assert_eq!(id.connect_address().as_str(), "127.0.0.1:18000");
    assert_eq!(id.downstream_peer_address().as_str(), "127.0.0.1:50123");
}

#[test]
fn session_reports_both_directions_and_first_completion() {
    let forward = vec![
        PumpEvent::ChunkRead(b"req".to_vec()),
        PumpEvent::WriteFinished,
        PumpEvent::ChunkRead(Vec::new()),
    ];
    let backward = vec![
        PumpEvent::ChunkRead(b"resp".to_vec()),
        PumpEvent::WriteFinished,
        PumpEvent::ChunkRead(Vec::new()),
    ];
    let report = run_session(&forward, &backward, Direction::Forward);
    assert_eq!(report.forward.written, b"req".to_vec());
    assert_eq!(report.backward.written, b"resp".to_vec());
    assert_eq!(report.closed_first, Direction::Forward);
    // Both pumps released their write halves at termination.
    assert!(report.forward.shutdown_sent);
    assert!(report.backward.shutdown_sent);
}

#[test]
fn half_close_propagates_while_the_other_direction_drains() {
    // The client half-closes after its request; the forward pump sees
    // end of stream and shuts the outbound write half down, while the
    // backward direction is still relaying.
    let forward = vec![
        PumpEvent::ChunkRead(b"req".to_vec()),
        PumpEvent::WriteFinished,
        PumpEvent::ChunkRead(Vec::new()),
    ];
    let backward = vec![PumpEvent::ChunkRead(b"partial".to_vec()), PumpEvent::WriteFinished];
    let report = run_session(&forward, &backward, Direction::Forward);
    assert_eq!(report.forward.state, PumpState::Done(PumpOutcome::SourceClosed));
    assert!(report.forward.shutdown_sent);
    assert_eq!(report.backward.state, PumpState::AwaitRead);
    assert!(!report.backward.shutdown_sent);
}

#[test]
fn ping_is_echoed_back_through_the_rule() {
    // Rule {listen: "127.0.0.1:18001", connect: "127.0.0.1:18000"}, an
    // echo server upstream; the client sends "ping" and reads back
    // exactly "ping".
    let rule = Proxy::new("127.0.0.1:18001".to_string(), "127.0.0.1:18000".to_string());
    let cfg = Config::new(Some(vec![rule]));
    let rules = startup(&cfg).expect("one rule is a runnable configuration");
    let listeners = plan_proxies(
        rules,
        &vec![Resolution::Resolved(vec!["127.0.0.1:18001".to_string()])],
    );
    assert_eq!(listeners.len(), 1);
    assert_eq!(listeners[0].listen_address().as_str(), "127.0.0.1:18001");
    assert_eq!(listeners[0].connect_address().as_str(), "127.0.0.1:18000");

    // The client sends "ping" and half-closes; the upstream echoes
    // exactly what the forward pump delivered.
    let forward = vec![
        PumpEvent::ChunkRead(b"ping".to_vec()),
        PumpEvent::WriteFinished,
        PumpEvent::ChunkRead(Vec::new()),
    ];
    let report_fwd = portproxy::pump::run_pump(&forward);
    let echoed = report_fwd.written.clone();
    let backward = vec![
        PumpEvent::ChunkRead(echoed),
        PumpEvent::WriteFinished,
        PumpEvent::ChunkRead(Vec::new()),
    ];
    let report = run_session(&forward, &backward, Direction::Forward);
    assert_eq!(report.backward.written, b"ping".to_vec());
}

#[test]
fn refused_upstream_drops_the_inbound_connection() {
    // Same rule, upstream not listening: the accepted connection is
    // closed at once and the listener keeps accepting.
    let tcp = Tcp::new("127.0.0.1:18001".to_string(), "127.0.0.1:18000");
    assert_eq!(tcp.listen_address().as_str(), "127.0.0.1:18001");
    assert_eq!(tcp.connect_address().as_str(), "127.0.0.1:18000");
    assert_eq!(listener_step(&ListenerEvent::ConnectFailed), ListenerAction::DropInbound);
    let report = run_listener(true, &vec![ListenerEvent::ConnectFailed]);
    assert!(report.bound);
    assert_eq!(report.sessions_spawned, 0);
    assert_eq!(report.inbound_dropped, 1);
}

#[test]
fn zero_resolved_addresses_is_a_failure() {
    assert_eq!(choose_connect_target(&Vec::new()), None);
    let resolved = vec!["10.0.0.1:9".to_string(), "10.0.0.2:9".to_string()];
    assert_eq!(choose_connect_target(&resolved), Some(&"10.0.0.1:9".to_string()));
}

#[test]
fn accept_failure_keeps_the_loop_alive() {
    assert_eq!(listener_step(&ListenerEvent::AcceptError), ListenerAction::ContinueAccepting);
    let report = run_listener(
        true,
        &vec![ListenerEvent::AcceptError, ListenerEvent::Connected],
    );
    assert_eq!(report.accept_errors, 1);
    assert_eq!(report.sessions_spawned, 1);
}
