//! The engine: startup rejection of an empty configuration, rule
//! expansion with per-rule resolution failures, and the isolation of
//! listeners and connections from one another.

use portproxy::config::{Config, Proxy};
use portproxy::engine::{plan_proxies, run_connections, run_listeners, startup, Resolution};
use portproxy::proxy::ListenerEvent;
use portproxy::pump::{PumpEvent, PumpOutcome, PumpState};
use portproxy::session::{Direction, SessionTrace};

#[test]
fn startup_rejects_missing_rule_list() {
    let cfg = Config::new(None);
    match startup(&cfg) {
        Ok(_) => panic!("a configuration without rules must be rejected"),
        Err(e) => {
            let msg = e.message();
            assert!(msg.to_lowercase().contains("no proxies"));
        }
    }
}

#[test]
fn startup_rejects_zero_rules() {
    let cfg = Config::new(Some(Vec::new()));
    assert!(startup(&cfg).is_err());
}

#[test]
fn startup_accepts_one_rule() {
    let p = Proxy::new("127.0.0.1:18001".to_string(), "127.0.0.1:18000".to_string());
    let cfg = Config::new(Some(vec![p]));
    let rules = startup(&cfg).expect("one rule must be accepted");
    assert_eq!(rules.len(), 1);
}

#[test]
fn plan_expands_each_resolved_address() {
    let rules = vec![Proxy::new("svc:1".to_string(), "up:2".to_string())];
    let resolutions = vec![Resolution::Resolved(vec![
        "10.0.0.1:1".to_string(),
        "10.0.0.2:1".to_string(),
    ])];
    let listeners = plan_proxies(&rules, &resolutions);
    assert_eq!(listeners.len(), 2);
    assert_eq!(listeners[0].listen_address().as_str(), "10.0.0.1:1");
    assert_eq!(listeners[0].connect_address().as_str(), "up:2");
    assert_eq!(listeners[1].listen_address().as_str(), "10.0.0.2:1");
    assert_eq!(listeners[1].connect_address().as_str(), "up:2");
}

#[test]
fn failed_resolution_skips_that_rule_alone() {
    let rules = vec![
        Proxy::new("bad:1".to_string(), "up1:2".to_string()),
        Proxy::new("good:1".to_string(), "up2:2".to_string()),
    ];
    let resolutions = vec![
        Resolution::Failed,
        Resolution::Resolved(vec!["10.0.0.9:1".to_string()]),
    ];
    let listeners = plan_proxies(&rules, &resolutions);
    assert_eq!(listeners.len(), 1);
    assert_eq!(listeners[0].listen_address().as_str(), "10.0.0.9:1");
    assert_eq!(listeners[0].connect_address().as_str(), "up2:2");
}

#[test]
fn refusing_rule_does_not_stop_its_sibling() {
    // First rule: every upstream connect refused.  Second rule: two
    // connections accepted and relayed.  The second listener's report
    // is untouched by the first one's failures.
    let binds = vec![true, true];
    let traces = vec![
        vec![
            ListenerEvent::ConnectFailed,
            ListenerEvent::ConnectFailed,
            ListenerEvent::ConnectFailed,
        ],
        vec![ListenerEvent::Connected, ListenerEvent::Connected],
    ];
    let reports = run_listeners(&binds, &traces);
    assert_eq!(reports.len(), 2);
    assert_eq!(reports[0].sessions_spawned, 0);
    assert_eq!(reports[0].inbound_dropped, 3);
    assert_eq!(reports[1].sessions_spawned, 2);
    assert_eq!(reports[1].inbound_dropped, 0);
}

#[test]
fn bind_failure_leaves_listener_inert() {
    let binds = vec![false];
    let traces = vec![vec![ListenerEvent::Connected]];
    let reports = run_listeners(&binds, &traces);
    assert!(!reports[0].bound);
    assert_eq!(reports[0].sessions_spawned, 0);
}

#[test]
fn connections_are_relayed_independently() {
    // Two concurrent connections under one rule carry different data;
    // neither's bytes appear in the other's report.
    let a = SessionTrace {
        forward_events: vec![
            PumpEvent::ChunkRead(b"alpha".to_vec()),
            PumpEvent::WriteFinished,
            PumpEvent::ChunkRead(Vec::new()),
        ],
        backward_events: vec![
            PumpEvent::ChunkRead(b"ALPHA".to_vec()),
            PumpEvent::WriteFinished,
            PumpEvent::ChunkRead(Vec::new()),
        ],
        first_done: Direction::Forward,
    };
    let b = SessionTrace {
        forward_events: vec![
            PumpEvent::ChunkRead(b"beta".to_vec()),
            PumpEvent::WriteFinished,
            PumpEvent::ChunkRead(Vec::new()),
        ],
        backward_events: vec![
            PumpEvent::ChunkRead(b"BETA".to_vec()),
            PumpEvent::WriteFinished,
            PumpEvent::ChunkRead(Vec::new()),
        ],
        first_done: Direction::Backward,
    };
    let reports = run_connections(&vec![a, b]);
    assert_eq!(reports.len(), 2);
    assert_eq!(reports[0].forward.written, b"alpha".to_vec());
    assert_eq!(reports[0].backward.written, b"ALPHA".to_vec());
    assert_eq!(reports[1].forward.written, b"beta".to_vec());
    assert_eq!(reports[1].backward.written, b"BETA".to_vec());
    assert_eq!(reports[0].forward.state, PumpState::Done(PumpOutcome::SourceClosed));
    assert_eq!(reports[1].forward.state, PumpState::Done(PumpOutcome::SourceClosed));
}
