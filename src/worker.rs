use vstd::prelude::*;

verus! {

/// Where a connection worker stands in its lifetime.
#[derive(Clone, Copy, Debug, PartialEq, Eq, Structural)]
pub enum WorkerState {
    /// The transport or security handshake is under way.
    Handshaking,
    /// Reading, decoding and forwarding.
    Active,
    /// Shutdown was seen: the write direction is being closed.
    HalfClosing,
    /// Reading what the peer still sends until end of stream or the tripwire.
    Draining,
    /// Resources released; the worker has ended.
    Terminated,
}

/// Why a worker ended.
#[derive(Clone, Copy, Debug, PartialEq, Eq, Structural)]
pub enum TerminationCause {
    /// The peer closed its side.
    Eof,
    /// The tripwire elapsed while the connection was still open.
    ForcedReset,
    /// The handshake failed.
    HandshakeFailed,
    /// Shutdown fired before the handshake completed.
    ShutdownDuringHandshake,
    /// The decoder reported an error it cannot recover from.
    FatalDecode,
    /// The output sink refused an event.
    SinkFailed,
}

/// What one pull from the framed reader produced, after event construction.
#[derive(Clone, Copy, Debug, PartialEq, Eq)]
pub enum FrameOutcome<T> {
    /// A frame that built an event.
    Event(T),
    /// A frame that builds no event (a heartbeat, say).
    NoEvent,
    /// A frame that could not be decoded; the stream can go on.
    Malformed,
    /// A decoder error after which the stream cannot go on.
    Fatal,
}

/// What a worker observes.
#[derive(Clone, Copy, Debug, PartialEq, Eq)]
pub enum WorkerEvent<T> {
    HandshakeOk,
    HandshakeFailed,
    ShutdownFired,
    /// The attempt to close the write direction has finished.
    WriteClosed,
    Frame(FrameOutcome<T>),
    Eof,
    TripwireElapsed,
    SinkFailed,
}

/// What the worker asks of the code that drives it.
#[derive(Clone, Copy, Debug, PartialEq, Eq)]
pub enum WorkerAction<T> {
    Nothing,
    /// Close the write direction of the transport.
    CloseWrite,
    /// Hand the event to the output sink.
    Forward(T),
    /// Log a recoverable decode error at warn level.
    Warn,
    /// Release the connection; the worker has ended.
    Terminate(TerminationCause),
}

pub open spec fn frame_step<T>(s: WorkerState, f: FrameOutcome<T>) -> (WorkerState, WorkerAction<T>) {
    match f {
        FrameOutcome::Event(e) => (s, WorkerAction::Forward(e)),
        FrameOutcome::NoEvent => (s, WorkerAction::Nothing),
        FrameOutcome::Malformed => (s, WorkerAction::Warn),
        FrameOutcome::Fatal => (
            WorkerState::Terminated,
            WorkerAction::Terminate(TerminationCause::FatalDecode),
        ),
    }
}

pub open spec fn end<T>(c: TerminationCause) -> (WorkerState, WorkerAction<T>) {
    (WorkerState::Terminated, WorkerAction::Terminate(c))
}

/// The transition of a worker in state `s` on event `ev`, and the action it asks for.
pub open spec fn next<T>(s: WorkerState, ev: WorkerEvent<T>) -> (WorkerState, WorkerAction<T>) {
    match s {
        WorkerState::Terminated => (s, WorkerAction::Nothing),
        WorkerState::Handshaking => match ev {
            WorkerEvent::HandshakeOk => (WorkerState::Active, WorkerAction::Nothing),
            WorkerEvent::HandshakeFailed => end(TerminationCause::HandshakeFailed),
            WorkerEvent::ShutdownFired => end(TerminationCause::ShutdownDuringHandshake),
            WorkerEvent::TripwireElapsed => end(TerminationCause::ShutdownDuringHandshake),
            WorkerEvent::Eof => end(TerminationCause::HandshakeFailed),
            _ => (s, WorkerAction::Nothing),
        },
        _ => match ev {
            WorkerEvent::TripwireElapsed => end(TerminationCause::ForcedReset),
            WorkerEvent::Eof => end(TerminationCause::Eof),
            WorkerEvent::SinkFailed => end(TerminationCause::SinkFailed),
            WorkerEvent::Frame(f) => frame_step(s, f),
            WorkerEvent::ShutdownFired => if s == WorkerState::Active {
                (WorkerState::HalfClosing, WorkerAction::CloseWrite)
            } else {
                (s, WorkerAction::Nothing)
            },
            WorkerEvent::WriteClosed => if s == WorkerState::HalfClosing {
                (WorkerState::Draining, WorkerAction::Nothing)
            } else {
                (s, WorkerAction::Nothing)
            },
            _ => (s, WorkerAction::Nothing),
        },
    }
}

/// The state after the events `evs`, from state `s`.
pub open spec fn state_after<T>(s: WorkerState, evs: Seq<WorkerEvent<T>>) -> WorkerState
    decreases evs.len(),
{
    if evs.len() == 0 {
        s
    } else {
        next(state_after(s, evs.drop_last()), evs.last()).0
    }
}

/// The action taken on the last of `evs`, from state `s`.
pub open spec fn last_action<T>(s: WorkerState, evs: Seq<WorkerEvent<T>>) -> WorkerAction<T>
    recommends
        evs.len() > 0,
{
    next(state_after(s, evs.drop_last()), evs.last()).1
}

/// The events handed to the sink over the events `evs`, in order.
pub open spec fn forwarded<T>(s: WorkerState, evs: Seq<WorkerEvent<T>>) -> Seq<T>
    decreases evs.len(),
{
    if evs.len() == 0 {
        Seq::empty()
    } else {
        let before = forwarded(s, evs.drop_last());
        match last_action(s, evs) {
            WorkerAction::Forward(e) => before.push(e),
            _ => before,
        }
    }
}

/// The number of warnings logged over the events `evs`.
pub open spec fn warnings<T>(s: WorkerState, evs: Seq<WorkerEvent<T>>) -> nat
    decreases evs.len(),
{
    if evs.len() == 0 {
        0
    } else {
        warnings(s, evs.drop_last()) + if last_action(s, evs) is Warn {
            1nat
        } else {
            0nat
        }
    }
}

/// Why the worker ended over the events `evs`, if it did.
pub open spec fn cause<T>(s: WorkerState, evs: Seq<WorkerEvent<T>>) -> Option<TerminationCause>
    decreases evs.len(),
{
    if evs.len() == 0 {
        None
    } else {
        match last_action(s, evs) {
            WorkerAction::Terminate(c) => Some(c),
            _ => cause(s, evs.drop_last()),
        }
    }
}

/// The shutdown state machine of one connection.
#[derive(Clone, Copy, Debug, PartialEq, Eq, Structural)]
pub struct ConnectionWorker {
    pub state: WorkerState,
}

impl ConnectionWorker {
    /// A worker for a connection whose handshake has not started.
    pub fn new() -> (r: ConnectionWorker)
        ensures
            r.state == WorkerState::Handshaking,
    {
        ConnectionWorker { state: WorkerState::Handshaking }
    }

    pub fn is_terminated(&self) -> (r: bool)
        ensures
            r == (self.state == WorkerState::Terminated),
    {
        self.state == WorkerState::Terminated
    }

    /// Takes one event and returns the action it calls for.
    pub fn on_event<T>(&mut self, ev: WorkerEvent<T>) -> (r: WorkerAction<T>)
        ensures
            (final(self).state, r) == next(old(self).state, ev),
    {
        let s = self.state;
        let (ns, act) = match s {
            WorkerState::Terminated => (s, WorkerAction::Nothing),
            WorkerState::Handshaking => match ev {
                WorkerEvent::HandshakeOk => (WorkerState::Active, WorkerAction::Nothing),
                WorkerEvent::HandshakeFailed => (
                    WorkerState::Terminated,
                    WorkerAction::Terminate(TerminationCause::HandshakeFailed),
                ),
                WorkerEvent::ShutdownFired => (
                    WorkerState::Terminated,
                    WorkerAction::Terminate(TerminationCause::ShutdownDuringHandshake),
                ),
                WorkerEvent::TripwireElapsed => (
                    WorkerState::Terminated,
                    WorkerAction::Terminate(TerminationCause::ShutdownDuringHandshake),
                ),
                WorkerEvent::Eof => (
                    WorkerState::Terminated,
                    WorkerAction::Terminate(TerminationCause::HandshakeFailed),
                ),
                _ => (s, WorkerAction::Nothing),
            },
            _ => match ev {
                WorkerEvent::TripwireElapsed => (
                    WorkerState::Terminated,
                    WorkerAction::Terminate(TerminationCause::ForcedReset),
                ),
                WorkerEvent::Eof => (
                    WorkerState::Terminated,
                    WorkerAction::Terminate(TerminationCause::Eof),
                ),
                WorkerEvent::SinkFailed => (
                    WorkerState::Terminated,
                    WorkerAction::Terminate(TerminationCause::SinkFailed),
                ),
                WorkerEvent::Frame(f) => match f {
                    FrameOutcome::Event(e) => (s, WorkerAction::Forward(e)),
                    FrameOutcome::NoEvent => (s, WorkerAction::Nothing),
                    FrameOutcome::Malformed => (s, WorkerAction::Warn),
                    FrameOutcome::Fatal => (
                        WorkerState::Terminated,
                        WorkerAction::Terminate(TerminationCause::FatalDecode),
                    ),
                },
                WorkerEvent::ShutdownFired => if s == WorkerState::Active {
                    (WorkerState::HalfClosing, WorkerAction::CloseWrite)
                } else {
                    (s, WorkerAction::Nothing)
                },
                WorkerEvent::WriteClosed => if s == WorkerState::HalfClosing {
                    (WorkerState::Draining, WorkerAction::Nothing)
                } else {
                    (s, WorkerAction::Nothing)
                },
                _ => (s, WorkerAction::Nothing),
            },
        };
        self.state = ns;
        act
    }
}

/// The outcome of driving a worker over a sequence of events.
#[derive(Debug)]
pub struct WorkerRun<T> {
    pub state: WorkerState,
    pub forwarded: Vec<T>,
    pub warnings: usize,
    pub cause: Option<TerminationCause>,
}

proof fn lemma_push<T>(s: WorkerState, evs: Seq<WorkerEvent<T>>, ev: WorkerEvent<T>)
    ensures
        state_after(s, evs.push(ev)) == next(state_after(s, evs), ev).0,
        last_action(s, evs.push(ev)) == next(state_after(s, evs), ev).1,
        forwarded(s, evs.push(ev)) == match next(state_after(s, evs), ev).1 {
            WorkerAction::Forward(e) => forwarded(s, evs).push(e),
            _ => forwarded(s, evs),
        },
        warnings(s, evs.push(ev)) == warnings(s, evs) + if next(state_after(s, evs), ev).1 is Warn {
            1nat
        } else {
            0nat
        },
        cause(s, evs.push(ev)) == match next(state_after(s, evs), ev).1 {
            WorkerAction::Terminate(c) => Some(c),
            _ => cause(s, evs),
        },
{
    assert(evs.push(ev).drop_last() =~= evs);
}

/// Drives a worker from state `start` over the events `evs`, collecting the
/// events it forwards, the warnings it logs and why it ended.
pub fn run_worker<T: Copy>(start: WorkerState, evs: &Vec<WorkerEvent<T>>) -> (r: WorkerRun<T>)
    ensures
        r.state == state_after(start, evs@),
        r.forwarded@ == forwarded(start, evs@),
        r.warnings == warnings(start, evs@),
        r.cause == cause(start, evs@),
{
    let mut w = ConnectionWorker { state: start };
    let mut out: Vec<T> = Vec::new();
    let mut warns: usize = 0;
    let mut why: Option<TerminationCause> = None;
    let mut i: usize = 0;
    while i < evs.len()
        invariant
            i <= evs@.len(),
            w.state == state_after(start, evs@.take(i as int)),
            out@ == forwarded(start, evs@.take(i as int)),
            warns == warnings(start, evs@.take(i as int)),
            warns <= i,
            why == cause(start, evs@.take(i as int)),
        decreases evs@.len() - i,
    {
        let ev = evs[i];
        proof {
            lemma_push(start, evs@.take(i as int), ev);
            assert(evs@.take(i as int).push(ev) =~= evs@.take(i + 1));
        }
        let act = w.on_event(ev);
        match act {
            WorkerAction::Forward(e) => out.push(e),
            WorkerAction::Warn => warns = warns + 1,
            WorkerAction::Terminate(c) => why = Some(c),
            _ => {},
        }
        i = i + 1;
    }
    assert(evs@.take(evs@.len() as int) =~= evs@);
    WorkerRun { state: w.state, forwarded: out, warnings: warns, cause: why }
}

proof fn lemma_append<T>(s: WorkerState, a: Seq<WorkerEvent<T>>, b: Seq<WorkerEvent<T>>)
    ensures
        state_after(s, a + b) == state_after(state_after(s, a), b),
        forwarded(s, a + b) == forwarded(s, a) + forwarded(state_after(s, a), b),
    decreases b.len(),
{
    if b.len() == 0 {
        assert(a + b =~= a);
        assert(forwarded(s, a) + Seq::<T>::empty() =~= forwarded(s, a));
    } else {
        let b0 = b.drop_last();
        lemma_append(s, a, b0);
        assert(a + b =~= (a + b0).push(b.last()));
        assert(b =~= b0.push(b.last()));
        lemma_push(s, a + b0, b.last());
        lemma_push(state_after(s, a), b0, b.last());
        assert(forwarded(s, a) + forwarded(state_after(s, a), b0).push(b.last()->Frame_0->Event_0)
            =~= (forwarded(s, a) + forwarded(state_after(s, a), b0)).push(
            b.last()->Frame_0->Event_0,
        ));
    }
}

proof fn lemma_terminated_is_final<T>(b: Seq<WorkerEvent<T>>)
    ensures
        state_after(WorkerState::Terminated, b) == WorkerState::Terminated,
        forwarded(WorkerState::Terminated, b) == Seq::<T>::empty(),
    decreases b.len(),
{
    if b.len() > 0 {
        lemma_terminated_is_final(b.drop_last());
    }
}

/// Once the tripwire elapses, whatever state the worker was in and whatever
/// the peer does after, the worker is terminated and forwards nothing more.
pub proof fn lemma_tripwire_terminates<T>(
    s: WorkerState,
    pre: Seq<WorkerEvent<T>>,
    post: Seq<WorkerEvent<T>>,
)
    ensures
        state_after(s, pre.push(WorkerEvent::TripwireElapsed) + post) == WorkerState::Terminated,
        forwarded(s, pre.push(WorkerEvent::TripwireElapsed) + post) == forwarded(s, pre),
{
    let tw = pre.push(WorkerEvent::TripwireElapsed);
    lemma_push(s, pre, WorkerEvent::TripwireElapsed);
    lemma_append(s, tw, post);
    lemma_terminated_is_final(post);
    assert(forwarded(s, tw) + Seq::<T>::empty() =~= forwarded(s, tw));
}

/// The events that frames building `es` deliver, one frame per event.
pub open spec fn frames_of<T>(es: Seq<T>) -> Seq<WorkerEvent<T>> {
    es.map_values(|e: T| WorkerEvent::Frame(FrameOutcome::Event(e)))
}

proof fn lemma_frames_forwarded<T>(es: Seq<T>)
    ensures
        state_after(WorkerState::Active, frames_of(es)) == WorkerState::Active,
        forwarded(WorkerState::Active, frames_of(es)) == es,
        cause(WorkerState::Active, frames_of(es)) is None,
        warnings(WorkerState::Active, frames_of(es)) == 0,
    decreases es.len(),
{
    if es.len() > 0 {
        let e0 = es.drop_last();
        lemma_frames_forwarded(e0);
        assert(frames_of(es) =~= frames_of(e0).push(
            WorkerEvent::Frame(FrameOutcome::Event(es.last())),
        ));
        lemma_push(
            WorkerState::Active,
            frames_of(e0),
            WorkerEvent::Frame(FrameOutcome::Event(es.last())),
        );
        assert(e0.push(es.last()) =~= es);
    } else {
        assert(frames_of(es) =~= Seq::<WorkerEvent<T>>::empty());
    }
}

/// A peer that sends frames building `es` and then closes before shutdown:
/// the sink receives exactly `es`, in order, and the worker ends on end of
/// stream, not by a forced reset.
pub proof fn lemma_clean_close<T>(es: Seq<T>)
    ensures
        forwarded(WorkerState::Active, frames_of(es).push(WorkerEvent::Eof)) == es,
        state_after(WorkerState::Active, frames_of(es).push(WorkerEvent::Eof))
            == WorkerState::Terminated,
        cause(WorkerState::Active, frames_of(es).push(WorkerEvent::Eof)) == Some(
            TerminationCause::Eof,
        ),
{
    lemma_frames_forwarded(es);
    lemma_push(WorkerState::Active, frames_of(es), WorkerEvent::Eof);
}

/// A frame decoded while the worker still runs (after shutdown fired too)
/// is forwarded; a frame that would come after the tripwire elapsed is not.
pub proof fn lemma_shutdown_then_frame<T>(a: T, b: T)
    ensures
        forwarded(
            WorkerState::Active,
            seq![
                WorkerEvent::Frame(FrameOutcome::Event(a)),
                WorkerEvent::ShutdownFired,
                WorkerEvent::WriteClosed,
                WorkerEvent::Frame(FrameOutcome::Event(b)),
            ],
        ) == seq![a, b],
        forwarded(
            WorkerState::Active,
            seq![
                WorkerEvent::Frame(FrameOutcome::Event(a)),
                WorkerEvent::ShutdownFired,
                WorkerEvent::WriteClosed,
                WorkerEvent::TripwireElapsed,
                WorkerEvent::Frame(FrameOutcome::Event(b)),
            ],
        ) == seq![a],
{
    let s = WorkerState::Active;
    let e0 = Seq::<WorkerEvent<T>>::empty();
    let e1 = e0.push(WorkerEvent::Frame(FrameOutcome::Event(a)));
    let e2 = e1.push(WorkerEvent::ShutdownFired);
    let e3 = e2.push(WorkerEvent::WriteClosed);
    let e4 = e3.push(WorkerEvent::Frame(FrameOutcome::Event(b)));
    let t4 = e3.push(WorkerEvent::TripwireElapsed);
    let t5 = t4.push(WorkerEvent::Frame(FrameOutcome::Event(b)));
    lemma_push(s, e0, WorkerEvent::Frame(FrameOutcome::Event(a)));
    lemma_push(s, e1, WorkerEvent::ShutdownFired);
    lemma_push(s, e2, WorkerEvent::WriteClosed);
    lemma_push(s, e3, WorkerEvent::Frame(FrameOutcome::Event(b)));
    lemma_push(s, e3, WorkerEvent::TripwireElapsed);
    lemma_push(s, t4, WorkerEvent::Frame(FrameOutcome::Event(b)));
    assert(e4 =~= seq![
        WorkerEvent::Frame(FrameOutcome::Event(a)),
        WorkerEvent::ShutdownFired,
        WorkerEvent::WriteClosed,
        WorkerEvent::Frame(FrameOutcome::Event(b)),
    ]);
    assert(t5 =~= seq![
        WorkerEvent::Frame(FrameOutcome::Event(a)),
        WorkerEvent::ShutdownFired,
        WorkerEvent::WriteClosed,
        WorkerEvent::TripwireElapsed,
        WorkerEvent::Frame(FrameOutcome::Event(b)),
    ]);
    assert(Seq::<T>::empty().push(a) =~= seq![a]);
    assert(seq![a].push(b) =~= seq![a, b]);
}

/// A malformed frame between two good ones: both good ones are forwarded,
/// one warning is logged, and the connection stays up.
pub proof fn lemma_malformed_frame_skipped<T>(s: WorkerState, v1: T, v2: T)
    requires
        s == WorkerState::Active || s == WorkerState::Draining,
    ensures
        forwarded(
            s,
            seq![
                WorkerEvent::Frame(FrameOutcome::Event(v1)),
                WorkerEvent::Frame(FrameOutcome::Malformed),
                WorkerEvent::Frame(FrameOutcome::Event(v2)),
            ],
        ) == seq![v1, v2],
        warnings(
            s,
            seq![
                WorkerEvent::Frame(FrameOutcome::Event(v1)),
                WorkerEvent::Frame(FrameOutcome::Malformed),
                WorkerEvent::Frame(FrameOutcome::Event(v2)),
            ],
        ) == 1,
        state_after(
            s,
            seq![
                WorkerEvent::Frame(FrameOutcome::Event(v1)),
                WorkerEvent::Frame(FrameOutcome::Malformed),
                WorkerEvent::Frame(FrameOutcome::Event(v2)),
            ],
        ) == s,
{
    let e0 = Seq::<WorkerEvent<T>>::empty();
    let e1 = e0.push(WorkerEvent::Frame(FrameOutcome::Event(v1)));
    let e2 = e1.push(WorkerEvent::Frame(FrameOutcome::Malformed));
    let e3 = e2.push(WorkerEvent::Frame(FrameOutcome::Event(v2)));
    lemma_push(s, e0, WorkerEvent::Frame(FrameOutcome::Event(v1)));
    lemma_push(s, e1, WorkerEvent::Frame(FrameOutcome::Malformed));
    lemma_push(s, e2, WorkerEvent::Frame(FrameOutcome::Event(v2)));
    assert(e3 =~= seq![
        WorkerEvent::Frame(FrameOutcome::Event(v1)),
        WorkerEvent::Frame(FrameOutcome::Malformed),
        WorkerEvent::Frame(FrameOutcome::Event(v2)),
    ]);
    assert(Seq::<T>::empty().push(v1) =~= seq![v1]);
    assert(seq![v1].push(v2) =~= seq![v1, v2]);
}

} // verus!
