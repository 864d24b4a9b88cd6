//! The pump on concrete event traces: byte-stream transparency, the
//! empty-read end-of-stream signal, error handling, and the explicit
//! shutdown of the write half on every termination path.

use portproxy::pump::{run_pump, pump_step, PumpAction, PumpEvent, PumpOutcome, PumpState};

fn chunk(bytes: &[u8]) -> PumpEvent {
    PumpEvent::ChunkRead(bytes.to_vec())
}

#[test]
fn pump_relays_bytes_in_order() {
    let events = vec![
        chunk(b"pi"),
        PumpEvent::WriteFinished,
        chunk(b"ng"),
        PumpEvent::WriteFinished,
        chunk(b""),
    ];
    let report = run_pump(&events);
    assert_eq!(report.written, b"ping".to_vec());
    assert_eq!(report.observed, vec![b"pi".to_vec(), b"ng".to_vec()]);
    assert_eq!(report.state, PumpState::Done(PumpOutcome::SourceClosed));
    assert!(report.shutdown_sent);
}

#[test]
fn pump_chunking_is_immaterial() {
    let one = vec![chunk(b"abcd"), PumpEvent::WriteFinished, chunk(b"")];
    let many = vec![
        chunk(b"a"),
        PumpEvent::WriteFinished,
        chunk(b"bc"),
        PumpEvent::WriteFinished,
        chunk(b"d"),
        PumpEvent::WriteFinished,
        chunk(b""),
    ];
    let r1 = run_pump(&one);
    let r2 = run_pump(&many);
    assert_eq!(r1.written, r2.written);
    assert_eq!(r1.written, b"abcd".to_vec());
}

#[test]
fn kilobyte_round_trip_survives_rechunking() {
    // A kilobyte of data goes forward in 100-byte chunks; the echo
    // comes back re-chunked in 37-byte pieces; the client still reads
    // back exactly what it wrote.
    let data: Vec<u8> = (0..1024u32).map(|i| (i * 31 % 251) as u8).collect();
    let mut forward = Vec::new();
    for piece in data.chunks(100) {
        forward.push(chunk(piece));
        forward.push(PumpEvent::WriteFinished);
    }
    forward.push(chunk(b""));
    let delivered = run_pump(&forward).written;
    assert_eq!(delivered, data);

    let mut backward = Vec::new();
    for piece in delivered.chunks(37) {
        backward.push(chunk(piece));
        backward.push(PumpEvent::WriteFinished);
    }
    backward.push(chunk(b""));
    let echoed = run_pump(&backward).written;
    assert_eq!(echoed, data);
}

#[test]
fn pump_stops_on_read_error_after_flushing() {
    let events = vec![chunk(b"ab"), PumpEvent::WriteFinished, PumpEvent::ReadFailed];
    let report = run_pump(&events);
    assert_eq!(report.written, b"ab".to_vec());
    assert_eq!(report.state, PumpState::Done(PumpOutcome::ReadError));
    assert!(report.shutdown_sent);
}

#[test]
fn pump_stops_on_write_error_but_chunk_was_dispatched() {
    let events = vec![chunk(b"ab"), PumpEvent::WriteFailed];
    let report = run_pump(&events);
    assert_eq!(report.written, Vec::<u8>::new());
    assert_eq!(report.observed, vec![b"ab".to_vec()]);
    assert_eq!(report.state, PumpState::Done(PumpOutcome::WriteError));
    assert!(report.shutdown_sent);
}

#[test]
fn pump_still_relaying_has_not_shut_down() {
    let events = vec![chunk(b"ab"), PumpEvent::WriteFinished];
    let report = run_pump(&events);
    assert_eq!(report.state, PumpState::AwaitRead);
    assert!(!report.shutdown_sent);
}

#[test]
fn empty_read_is_end_of_stream() {
    let (state, action) = pump_step(PumpState::AwaitRead, chunk(b""));
    assert_eq!(state, PumpState::Done(PumpOutcome::SourceClosed));
    assert_eq!(action, PumpAction::ShutdownWrite);
}

#[test]
fn nonempty_read_is_dispatched_and_written() {
    let (state, action) = pump_step(PumpState::AwaitRead, chunk(b"xy"));
    assert_eq!(state, PumpState::AwaitWrite(b"xy".to_vec()));
    assert_eq!(action, PumpAction::ForwardChunk(b"xy".to_vec()));
}

#[test]
fn finished_write_asks_for_the_next_read() {
    let (state, action) = pump_step(PumpState::AwaitWrite(b"xy".to_vec()), PumpEvent::WriteFinished);
    assert_eq!(state, PumpState::AwaitRead);
    assert_eq!(action, PumpAction::ReadMore);
}

#[test]
fn failed_write_shuts_down() {
    let (state, action) = pump_step(PumpState::AwaitWrite(b"xy".to_vec()), PumpEvent::WriteFailed);
    assert_eq!(state, PumpState::Done(PumpOutcome::WriteError));
    assert_eq!(action, PumpAction::ShutdownWrite);
}

#[test]
fn failed_read_shuts_down() {
    let (state, action) = pump_step(PumpState::AwaitRead, PumpEvent::ReadFailed);
    assert_eq!(state, PumpState::Done(PumpOutcome::ReadError));
    assert_eq!(action, PumpAction::ShutdownWrite);
}
