use vector::worker::{
    run_worker, ConnectionWorker, FrameOutcome, TerminationCause, WorkerAction, WorkerEvent,
    WorkerState,
};

fn ev(n: u32) -> WorkerEvent<u32> {
    WorkerEvent::Frame(FrameOutcome::Event(n))
}

#[test]
fn clean_close_forwards_all_frames_in_order() {
    let events = vec![ev(1), ev(2), ev(3), ev(4), WorkerEvent::Eof];
    let run = run_worker(WorkerState::Active, &events);
    assert_eq!(run.forwarded, vec![1, 2, 3, 4]);
    assert_eq!(run.state, WorkerState::Terminated);
    assert_eq!(run.cause, Some(TerminationCause::Eof));
    assert_eq!(run.warnings, 0);
}

#[test]
fn frame_after_shutdown_before_tripwire_is_forwarded() {
    let events = vec![
        ev(10),
        WorkerEvent::ShutdownFired,
        WorkerEvent::WriteClosed,
        ev(20),
        WorkerEvent::TripwireElapsed,
    ];
    let run = run_worker(WorkerState::Active, &events);
    assert_eq!(run.forwarded, vec![10, 20]);
    assert_eq!(run.cause, Some(TerminationCause::ForcedReset));
}

#[test]
fn frame_after_tripwire_is_not_forwarded() {
    let events = vec![
        ev(10),
        WorkerEvent::ShutdownFired,
        WorkerEvent::WriteClosed,
        WorkerEvent::TripwireElapsed,
        ev(20),
    ];
    let run = run_worker(WorkerState::Active, &events);
    assert_eq!(run.forwarded, vec![10]);
    assert_eq!(run.state, WorkerState::Terminated);
}

#[test]
fn malformed_frame_is_skipped_with_one_warning() {
    let events = vec![ev(1), WorkerEvent::Frame(FrameOutcome::Malformed), ev(2)];
    let run = run_worker(WorkerState::Active, &events);
    assert_eq!(run.forwarded, vec![1, 2]);
    assert_eq!(run.warnings, 1);
    assert_eq!(run.state, WorkerState::Active);
    assert_eq!(run.cause, None);
}

#[test]
fn peer_that_never_closes_is_reset_by_tripwire() {
    let mut events = vec![WorkerEvent::HandshakeOk, ev(1), WorkerEvent::ShutdownFired];
    events.push(WorkerEvent::WriteClosed);
    for i in 0..100 {
        events.push(ev(i));
    }
    events.push(WorkerEvent::TripwireElapsed);
    events.push(ev(500));
    let run = run_worker(WorkerState::Handshaking, &events);
    assert_eq!(run.state, WorkerState::Terminated);
    assert_eq!(run.cause, Some(TerminationCause::ForcedReset));
    assert_eq!(run.forwarded.len(), 101);
}

#[test]
fn shutdown_during_handshake_ends_without_events() {
    let events = vec![WorkerEvent::ShutdownFired, ev(1), WorkerEvent::HandshakeOk];
    let run = run_worker(WorkerState::Handshaking, &events);
    assert!(run.forwarded.is_empty());
    assert_eq!(run.cause, Some(TerminationCause::ShutdownDuringHandshake));
}

#[test]
fn worker_transitions_one_by_one() {
    let mut w = ConnectionWorker::new();
    assert_eq!(w.state, WorkerState::Handshaking);
    assert_eq!(w.on_event::<u32>(WorkerEvent::HandshakeOk), WorkerAction::Nothing);
    assert_eq!(w.state, WorkerState::Active);
    assert_eq!(w.on_event::<u32>(WorkerEvent::Frame(FrameOutcome::NoEvent)), WorkerAction::Nothing);
    assert_eq!(w.on_event(ev(5)), WorkerAction::Forward(5));
    assert_eq!(w.on_event::<u32>(WorkerEvent::ShutdownFired), WorkerAction::CloseWrite);
    assert_eq!(w.state, WorkerState::HalfClosing);
    assert_eq!(w.on_event::<u32>(WorkerEvent::ShutdownFired), WorkerAction::Nothing);
    assert_eq!(w.on_event::<u32>(WorkerEvent::WriteClosed), WorkerAction::Nothing);
    assert_eq!(w.state, WorkerState::Draining);
    assert!(!w.is_terminated());
    assert_eq!(
        w.on_event::<u32>(WorkerEvent::Eof),
        WorkerAction::Terminate(TerminationCause::Eof)
    );
    assert!(w.is_terminated());
    assert_eq!(w.on_event(ev(6)), WorkerAction::Nothing);
}

#[test]
fn worker_error_endings() {
    let run = run_worker(WorkerState::Handshaking, &vec![WorkerEvent::<u32>::HandshakeFailed]);
    assert_eq!(run.cause, Some(TerminationCause::HandshakeFailed));
    let run = run_worker(WorkerState::Active, &vec![ev(1), WorkerEvent::Frame(FrameOutcome::Fatal), ev(2)]);
    assert_eq!(run.forwarded, vec![1]);
    assert_eq!(run.cause, Some(TerminationCause::FatalDecode));
    let run = run_worker(WorkerState::Active, &vec![ev(1), WorkerEvent::SinkFailed, ev(2)]);
    assert_eq!(run.forwarded, vec![1]);
    assert_eq!(run.cause, Some(TerminationCause::SinkFailed));
}
