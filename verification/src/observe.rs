//! The live view of a foreign pane: a session that observes a remote terminal and
//! hands its frames to the hub.
//!
//! The session decides; whoever runs it performs each action on the remote's
//! client socket and reports what came of it. The session only reads: it never
//! sends input and never resizes the remote terminal.
use vstd::prelude::*;

use crate::protocol::{
    ClientMessage, ClientMessageView, FrameData, FramingError, FramingErrorView, ServerMessage,
    ServerMessageView, PROTOCOL_VERSION,
};
use crate::session::{
    check_welcome, hello, hello_of, law_the_hello_announces_the_viewport, welcome_fault, Received,
    ReceivedView, SessionError, SessionErrorView,
};
use crate::terminal::TerminalId;

verus! {

/// Why an observer session failed.
pub type ObserveSessionError = SessionError;

/// A frame of a foreign terminal, ready to be rendered in the hub's pane.
#[derive(Debug)]
pub struct ForeignFrame {
    /// Namespaced terminal id.
    pub terminal_id: TerminalId,
    /// The rendered cell grid from the remote server.
    pub frame: FrameData,
}

/// A frame and the id of its terminal.
pub struct ForeignFrameView {
    pub terminal_id: Seq<char>,
    pub frame: FrameData,
}

impl View for ForeignFrame {
    type V = ForeignFrameView;

    open spec fn view(&self) -> ForeignFrameView {
        ForeignFrameView { terminal_id: self.terminal_id@, frame: self.frame }
    }
}

/// What an observer session waits for.
#[derive(Debug, Clone, Copy, PartialEq, Eq, Structural)]
pub enum ObservePhase {
    /// For the connection.
    Connecting,
    /// For its hello to be sent.
    Greeting,
    /// For the server's welcome.
    AwaitingWelcome,
    /// For its request to observe to be sent.
    Switching,
    /// For whether the hub still listens.
    CheckingHub,
    /// For the next message.
    Reading,
    /// For a frame to be handed over.
    Delivering,
    /// For nothing: the session is over.
    Finished,
}

/// What came of handing a frame to the hub, without waiting for the hub.
#[derive(Debug, Clone, Copy, PartialEq, Eq, Structural)]
pub enum Delivery {
    /// The hub took it.
    Accepted,
    /// The hub did not take it; whether it still listens.
    Dropped { hub_open: bool },
}

/// What came of an action.
#[derive(Debug)]
pub enum ObserveEvent {
    /// Of connecting; a failure in words.
    Connected(Result<(), String>),
    /// Of sending.
    Sent(Result<(), FramingError>),
    /// Of receiving.
    Received(Result<Received, FramingError>),
    /// Of asking whether the hub still listens.
    Hub { open: bool },
    /// Of handing over a frame.
    Delivered(Delivery),
}

/// What came of an action, as text.
pub enum ObserveEventView {
    Connected(Result<(), Seq<char>>),
    Sent(Result<(), FramingErrorView>),
    Received(Result<ReceivedView, FramingErrorView>),
    Hub { open: bool },
    Delivered(Delivery),
}

impl View for ObserveEvent {
    type V = ObserveEventView;

    open spec fn view(&self) -> ObserveEventView {
        match self {
            ObserveEvent::Connected(Ok(_)) => ObserveEventView::Connected(Ok(())),
            ObserveEvent::Connected(Err(error)) => ObserveEventView::Connected(Err(error@)),
            ObserveEvent::Sent(Ok(_)) => ObserveEventView::Sent(Ok(())),
            ObserveEvent::Sent(Err(error)) => ObserveEventView::Sent(Err(error@)),
            ObserveEvent::Received(Ok(received)) => ObserveEventView::Received(Ok(received@)),
            ObserveEvent::Received(Err(error)) => ObserveEventView::Received(Err(error@)),
            ObserveEvent::Hub { open } => ObserveEventView::Hub { open: *open },
            ObserveEvent::Delivered(delivery) => ObserveEventView::Delivered(*delivery),
        }
    }
}

/// What to do next.
#[derive(Debug)]
pub enum ObserveAction {
    Connect,
    Send(ClientMessage),
    Receive,
    CheckHub,
    Deliver(ForeignFrame),
    /// The session is over: cleanly, or with a failure.
    Finish(Result<(), ObserveSessionError>),
}

/// What to do next, as text.
pub enum ObserveActionView {
    Connect,
    Send(ClientMessageView),
    Receive,
    CheckHub,
    Deliver(ForeignFrameView),
    Finish(Result<(), SessionErrorView>),
}

impl View for ObserveAction {
    type V = ObserveActionView;

    open spec fn view(&self) -> ObserveActionView {
        match self {
            ObserveAction::Connect => ObserveActionView::Connect,
            ObserveAction::Send(message) => ObserveActionView::Send(message@),
            ObserveAction::Receive => ObserveActionView::Receive,
            ObserveAction::CheckHub => ObserveActionView::CheckHub,
            ObserveAction::Deliver(frame) => ObserveActionView::Deliver(frame@),
            ObserveAction::Finish(Ok(_)) => ObserveActionView::Finish(Ok(())),
            ObserveAction::Finish(Err(error)) => ObserveActionView::Finish(Err(error@)),
        }
    }
}

/// An observer session.
#[derive(Debug)]
pub struct ObserverSession {
    phase: ObservePhase,
    target: String,
    terminal_id: TerminalId,
    cols: u16,
    rows: u16,
}

/// An observer session: what it waits for, the raw id of the terminal it
/// observes, the namespaced id of that terminal, and its viewport.
pub struct ObserverView {
    pub phase: ObservePhase,
    pub target: Seq<char>,
    pub terminal_id: Seq<char>,
    pub cols: u16,
    pub rows: u16,
}

impl View for ObserverSession {
    type V = ObserverView;

    closed spec fn view(&self) -> ObserverView {
        ObserverView {
            phase: self.phase,
            target: self.target@,
            terminal_id: self.terminal_id@,
            cols: self.cols,
            rows: self.rows,
        }
    }
}

/// Whether an event is what a phase waits for.
pub open spec fn observe_answers(phase: ObservePhase, event: ObserveEventView) -> bool {
    match phase {
        ObservePhase::Connecting => event is Connected,
        ObservePhase::Greeting => event is Sent,
        ObservePhase::AwaitingWelcome => event is Received,
        ObservePhase::Switching => event is Sent,
        ObservePhase::CheckingHub => event is Hub,
        ObservePhase::Reading => event is Received,
        ObservePhase::Delivering => event is Delivered,
        ObservePhase::Finished => false,
    }
}

/// The request to observe the session's terminal.
pub open spec fn observe_request(session: ObserverView) -> ClientMessageView {
    ClientMessageView::ObserveTerminal { target: session.target }
}

/// What a session does when it learns what came of its last action, and what it
/// waits for then.
pub open spec fn observe_step(session: ObserverView, event: ObserveEventView) -> (
    ObservePhase,
    ObserveActionView,
) {
    let failed = |error: SessionErrorView|
        (ObservePhase::Finished, ObserveActionView::Finish(Err(error)));
    let ended = (ObservePhase::Finished, ObserveActionView::Finish(Ok(())));
    let next = (ObservePhase::CheckingHub, ObserveActionView::CheckHub);
    match session.phase {
        ObservePhase::Connecting => match event {
            ObserveEventView::Connected(Ok(_)) => (
                ObservePhase::Greeting,
                ObserveActionView::Send(
                    ClientMessageView::Hello(hello_of(session.cols, session.rows)),
                ),
            ),
            ObserveEventView::Connected(Err(error)) => failed(SessionErrorView::Connect(error)),
            _ => arbitrary(),
        },
        ObservePhase::Greeting => match event {
            ObserveEventView::Sent(Ok(_)) => (
                ObservePhase::AwaitingWelcome,
                ObserveActionView::Receive,
            ),
            ObserveEventView::Sent(Err(error)) => failed(SessionErrorView::Framing(error)),
            _ => arbitrary(),
        },
        ObservePhase::AwaitingWelcome => match event {
            ObserveEventView::Received(Ok(received)) => match welcome_fault(received) {
                None => (
                    ObservePhase::Switching,
                    ObserveActionView::Send(observe_request(session)),
                ),
                Some(fault) => failed(fault),
            },
            ObserveEventView::Received(Err(error)) => failed(SessionErrorView::Framing(error)),
            _ => arbitrary(),
        },
        ObservePhase::Switching => match event {
            ObserveEventView::Sent(Ok(_)) => next,
            ObserveEventView::Sent(Err(error)) => failed(SessionErrorView::Framing(error)),
            _ => arbitrary(),
        },
        ObservePhase::CheckingHub => match event {
            ObserveEventView::Hub { open } => if open {
                (ObservePhase::Reading, ObserveActionView::Receive)
            } else {
                ended
            },
            _ => arbitrary(),
        },
        ObservePhase::Reading => match event {
            ObserveEventView::Received(Ok(received)) => match received.message {
                ServerMessageView::Frame(frame) => (
                    ObservePhase::Delivering,
                    ObserveActionView::Deliver(
                        ForeignFrameView { terminal_id: session.terminal_id, frame },
                    ),
                ),
                ServerMessageView::ServerShutdown { .. } => ended,
                _ => next,
            },
            // The remote closing the connection is no failure.
            ObserveEventView::Received(Err(FramingErrorView::UnexpectedEof)) => ended,
            ObserveEventView::Received(Err(error)) => failed(SessionErrorView::Framing(error)),
            _ => arbitrary(),
        },
        ObservePhase::Delivering => match event {
            // A frame that a busy hub does not take is dropped.
            ObserveEventView::Delivered(Delivery::Dropped { hub_open: false }) => ended,
            ObserveEventView::Delivered(_) => next,
            _ => arbitrary(),
        },
        ObservePhase::Finished => arbitrary(),
    }
}

impl ObserverSession {
    /// A session that observes the terminal with this raw id and hands its
    /// frames over under the namespaced one. Its first action is to connect.
    pub fn start(
        raw_terminal_id: &TerminalId,
        namespaced_terminal_id: &TerminalId,
        cols: u16,
        rows: u16,
    ) -> (r: (ObserverSession, ObserveAction))
        ensures
            r.0@ == (ObserverView {
                phase: ObservePhase::Connecting,
                target: raw_terminal_id@,
                terminal_id: namespaced_terminal_id@,
                cols,
                rows,
            }),
            r.1@ == ObserveActionView::Connect,
    {
        (
            ObserverSession {
                phase: ObservePhase::Connecting,
                target: raw_terminal_id.as_str().to_owned(),
                terminal_id: namespaced_terminal_id.clone(),
                cols,
                rows,
            },
            ObserveAction::Connect,
        )
    }

    /// What the session waits for.
    pub fn phase(&self) -> (r: ObservePhase)
        ensures
            r == self@.phase,
    {
        self.phase
    }

    /// Whether an event is what the session waits for.
    pub fn awaits(&self, event: &ObserveEvent) -> (r: bool)
        ensures
            r == observe_answers(self@.phase, event@),
    {
        match self.phase {
            ObservePhase::Connecting => matches!(event, ObserveEvent::Connected(_)),
            ObservePhase::Greeting | ObservePhase::Switching => {
                matches!(event, ObserveEvent::Sent(_))
            },
            ObservePhase::AwaitingWelcome | ObservePhase::Reading => {
                matches!(event, ObserveEvent::Received(_))
            },
            ObservePhase::CheckingHub => matches!(event, ObserveEvent::Hub { .. }),
            ObservePhase::Delivering => matches!(event, ObserveEvent::Delivered(_)),
            ObservePhase::Finished => false,
        }
    }

    /// Learns what came of the last action and says what to do next.
    pub fn step(&mut self, event: ObserveEvent) -> (r: ObserveAction)
        requires
            observe_answers(old(self)@.phase, event@),
        ensures
            (final(self)@.phase, r@) == observe_step(old(self)@, event@),
            final(self)@.target == old(self)@.target,
            final(self)@.terminal_id == old(self)@.terminal_id,
            final(self)@.cols == old(self)@.cols,
            final(self)@.rows == old(self)@.rows,
    {
        match event {
            ObserveEvent::Connected(Ok(_)) => {
                self.phase = ObservePhase::Greeting;
                ObserveAction::Send(ClientMessage::Hello(hello(self.cols, self.rows)))
            },
            ObserveEvent::Connected(Err(error)) => self.fail(SessionError::Connect(error)),
            ObserveEvent::Sent(Err(error)) => self.fail(SessionError::Framing(error)),
            ObserveEvent::Sent(Ok(_)) => {
                if self.phase == ObservePhase::Greeting {
                    self.phase = ObservePhase::AwaitingWelcome;
                    ObserveAction::Receive
                } else {
                    self.check_hub()
                }
            },
            ObserveEvent::Received(Ok(received)) => {
                if self.phase == ObservePhase::AwaitingWelcome {
                    match check_welcome(received) {
                        Ok(_) => {
                            self.phase = ObservePhase::Switching;
                            ObserveAction::Send(
                                ClientMessage::ObserveTerminal { target: self.target.clone() },
                            )
                        },
                        Err(fault) => self.fail(fault),
                    }
                } else {
                    match received.message {
                        ServerMessage::Frame(frame) => {
                            self.phase = ObservePhase::Delivering;
                            ObserveAction::Deliver(
                                ForeignFrame { terminal_id: self.terminal_id.clone(), frame },
                            )
                        },
                        ServerMessage::ServerShutdown { reason: _ } => self.end(),
                        _ => self.check_hub(),
                    }
                }
            },
            ObserveEvent::Received(Err(error)) => {
                if self.phase == ObservePhase::Reading {
                    match error {
                        FramingError::UnexpectedEof => self.end(),
                        FramingError::Other(message) => self.fail(
                            SessionError::Framing(FramingError::Other(message)),
                        ),
                    }
                } else {
                    self.fail(SessionError::Framing(error))
                }
            },
            ObserveEvent::Hub { open } => {
                if open {
                    self.phase = ObservePhase::Reading;
                    ObserveAction::Receive
                } else {
                    self.end()
                }
            },
            ObserveEvent::Delivered(delivery) => match delivery {
                Delivery::Dropped { hub_open: false } => self.end(),
                _ => self.check_hub(),
            },
        }
    }

    /// Back to the hub before the next read.
    fn check_hub(&mut self) -> (r: ObserveAction)
        ensures
            (final(self)@, r@) == (
                ObserverView { phase: ObservePhase::CheckingHub, ..old(self)@ },
                ObserveActionView::CheckHub,
            ),
    {
        self.phase = ObservePhase::CheckingHub;
        ObserveAction::CheckHub
    }

    /// Over, cleanly.
    fn end(&mut self) -> (r: ObserveAction)
        ensures
            (final(self)@, r@) == (
                ObserverView { phase: ObservePhase::Finished, ..old(self)@ },
                ObserveActionView::Finish(Ok(())),
            ),
    {
        self.phase = ObservePhase::Finished;
        ObserveAction::Finish(Ok(()))
    }

    /// Over, with a failure.
    fn fail(&mut self, error: ObserveSessionError) -> (r: ObserveAction)
        ensures
            (final(self)@, r@) == (
                ObserverView { phase: ObservePhase::Finished, ..old(self)@ },
                ObserveActionView::Finish(Err(error@)),
            ),
    {
        self.phase = ObservePhase::Finished;
        ObserveAction::Finish(Err(error))
    }
}

// ---------------------------------------------------------------------------
// Whole sessions

/// What a session has seen and done.
#[verifier::ext_equal]
pub struct ObserveTrace {
    pub session: ObserverView,
    /// The messages it sent or tried to send.
    pub sent: Seq<ClientMessageView>,
    /// The first message it received, once there is one.
    pub first: Option<ReceivedView>,
    /// The frames it read after that.
    pub frames: Seq<FrameData>,
    /// The frames it handed to the hub.
    pub delivered: Seq<ForeignFrameView>,
}

/// A session that has just been started.
pub open spec fn observe_started(session: ObserverView) -> ObserveTrace {
    ObserveTrace {
        session,
        sent: Seq::empty(),
        first: None,
        frames: Seq::empty(),
        delivered: Seq::empty(),
    }
}

/// One event more.
pub open spec fn observe_advanced(trace: ObserveTrace, event: ObserveEventView) -> ObserveTrace {
    let (phase, action) = observe_step(trace.session, event);
    ObserveTrace {
        session: ObserverView { phase, ..trace.session },
        sent: match action {
            ObserveActionView::Send(message) => trace.sent.push(message),
            _ => trace.sent,
        },
        first: match event {
            ObserveEventView::Received(Ok(received)) => if trace.first is None {
                Some(received)
            } else {
                trace.first
            },
            _ => trace.first,
        },
        frames: match event {
            ObserveEventView::Received(Ok(received)) => match received.message {
                ServerMessageView::Frame(frame) => if trace.first is None {
                    trace.frames
                } else {
                    trace.frames.push(frame)
                },
                _ => trace.frames,
            },
            _ => trace.frames,
        },
        delivered: match action {
            ObserveActionView::Deliver(frame) => trace.delivered.push(frame),
            _ => trace.delivered,
        },
    }
}

/// What a session has seen and done after a row of events.
pub open spec fn observe_trace(session: ObserverView, events: Seq<ObserveEventView>) -> ObserveTrace
    decreases events.len(),
{
    if events.len() == 0 {
        observe_started(session)
    } else {
        observe_advanced(observe_trace(session, events.drop_last()), events.last())
    }
}

/// Whether a row of events can come to a session that has just been started:
/// each is what the session then waits for.
pub open spec fn observe_runs(session: ObserverView, events: Seq<ObserveEventView>) -> bool
    decreases events.len(),
{
    if events.len() == 0 {
        session.phase == ObservePhase::Connecting
    } else {
        observe_runs(session, events.drop_last()) && observe_answers(
            observe_trace(session, events.drop_last()).session.phase,
            events.last(),
        )
    }
}

/// All that a session ever sends: its hello and the request to observe.
pub open spec fn observe_script(session: ObserverView) -> Seq<ClientMessageView> {
    seq![
        ClientMessageView::Hello(hello_of(session.cols, session.rows)),
        observe_request(session),
    ]
}

/// Whether the first message of a server welcomes the session.
pub open spec fn welcomed_by(first: Option<ReceivedView>) -> bool {
    match first {
        Some(received) => welcome_fault(received) is None,
        None => false,
    }
}

/// A session only reads: beyond its hello and the request to observe it sends
/// nothing, and that request only to a server that welcomed it.
pub proof fn law_observer_only_reads(session: ObserverView, events: Seq<ObserveEventView>)
    requires
        observe_runs(session, events),
    ensures
        ({
            let trace = observe_trace(session, events);
            &&& trace.sent.is_prefix_of(observe_script(session))
            &&& trace.sent.len() > 1 ==> welcomed_by(trace.first)
        }),
{
    lemma_observe_progress(session, events);
}

/// A session hands over every frame that it reads, unchanged and in order, each
/// under the namespaced id of its terminal.
pub proof fn law_observer_hands_over_every_frame(
    session: ObserverView,
    events: Seq<ObserveEventView>,
)
    requires
        observe_runs(session, events),
    ensures
        observe_trace(session, events).delivered == observe_trace(
            session,
            events,
        ).frames.map_values(
            |frame: FrameData| ForeignFrameView { terminal_id: session.terminal_id, frame },
        ),
{
    lemma_observe_progress(session, events);
}

/// How far a session is in each phase.
proof fn lemma_observe_progress(session: ObserverView, events: Seq<ObserveEventView>)
    requires
        observe_runs(session, events),
    ensures
        ({
            let trace = observe_trace(session, events);
            let script = observe_script(session);
            let welcomed = welcomed_by(trace.first);
            &&& trace.session == (ObserverView { phase: trace.session.phase, ..session })
            &&& trace.delivered == trace.frames.map_values(
                |frame: FrameData| ForeignFrameView { terminal_id: session.terminal_id, frame },
            )
            &&& match trace.session.phase {
                ObservePhase::Connecting => trace.sent.len() == 0 && trace.first is None,
                ObservePhase::Greeting => trace.sent == script.take(1) && trace.first is None,
                ObservePhase::AwaitingWelcome => trace.sent == script.take(1)
                    && trace.first is None,
                ObservePhase::Finished => {
                    ||| trace.sent.len() == 0
                    ||| trace.sent == script.take(1)
                    ||| trace.sent == script && welcomed
                },
                _ => trace.sent == script && welcomed,
            }
        }),
    decreases events.len(),
{
    let trace = observe_trace(session, events);
    let script = observe_script(session);
    let handed = |frame: FrameData| ForeignFrameView { terminal_id: session.terminal_id, frame };
    if events.len() == 0 {
        assert(trace.delivered == trace.frames.map_values(handed));
    } else {
        let before = observe_trace(session, events.drop_last());
        lemma_observe_progress(session, events.drop_last());
        assert(script.take(1).push(script[1]) == script);
        assert(Seq::<ClientMessageView>::empty().push(script[0]) == script.take(1));
        assert(before.sent.len() == 0 ==> before.sent == Seq::<ClientMessageView>::empty());
        assert forall|frame: FrameData| #[trigger]
            before.frames.push(frame).map_values(handed) == before.frames.map_values(handed).push(
                handed(frame),
            ) by {
        }
        match events.last() {
            ObserveEventView::Received(Ok(received)) => match received.message {
                ServerMessageView::Frame(frame) => {
                    assert(before.frames.push(frame).map_values(handed)
                        == before.frames.map_values(handed).push(handed(frame)));
                },
                _ => {},
            },
            _ => {},
        }
    }
}

/// What a session says to its server: first its own version and the viewport it
/// was started with, then the raw id of the terminal to observe, and nothing more.
pub proof fn law_observer_asks_for_its_own_view(
    session: ObserverView,
    events: Seq<ObserveEventView>,
)
    requires
        observe_runs(session, events),
    ensures
        ({
            let sent = observe_trace(session, events).sent;
            &&& sent.len() <= 2
            &&& sent.len() > 0 ==> {
                &&& sent[0] matches ClientMessageView::Hello(hello)
                &&& hello.version == PROTOCOL_VERSION
                &&& hello.cols == session.cols
                &&& hello.rows == session.rows
            }
            &&& sent.len() > 1 ==> {
                &&& sent[1] matches ClientMessageView::ObserveTerminal { target }
                &&& target == session.target
            }
        }),
{
    lemma_observe_progress(session, events);
    law_the_hello_announces_the_viewport(session.cols, session.rows);
    let script = observe_script(session);
    assert(script.take(1)[0] == script[0]);
}

/// A session is what it was started for: the terminal of that raw id, shown under
/// that namespaced id, in a viewport of that size; and it begins by connecting.
pub proof fn law_observers_start_as_asked(
    raw_terminal_id: &TerminalId,
    namespaced_terminal_id: &TerminalId,
    cols: u16,
    rows: u16,
    started: (ObserverSession, ObserveAction),
)
    requires
        call_ensures(
            ObserverSession::start,
            (raw_terminal_id, namespaced_terminal_id, cols, rows),
            started,
        ),
    ensures
        started.0@.target == raw_terminal_id@,
        started.0@.terminal_id == namespaced_terminal_id@,
        started.0@.cols == cols,
        started.0@.rows == rows,
        started.0@.phase is Connecting,
        started.1@ is Connect,
{
}

/// When a session ends, and how. It ends cleanly where the hub no longer listens,
/// where the server shuts down, and where the connection is closed while it reads;
/// it fails where connecting, sending or the welcome fails, or where reading fails
/// otherwise, and then it says with what. A frame that a busy hub does not take
/// ends nothing.
pub proof fn law_how_an_observer_ends(session: ObserverView, event: ObserveEventView)
    requires
        observe_answers(session.phase, event),
    ensures
        ({
            let (phase, action) = observe_step(session, event);
            let reading = session.phase is Reading;
            &&& phase is Finished <==> action is Finish
            &&& action == ObserveActionView::Finish(Ok(())) <==> {
                ||| event == (ObserveEventView::Hub { open: false })
                ||| event == ObserveEventView::Delivered(Delivery::Dropped { hub_open: false })
                ||| reading && event == ObserveEventView::Received(
                    Err(FramingErrorView::UnexpectedEof),
                )
                ||| reading && (event matches ObserveEventView::Received(Ok(received))
                    && received.message is ServerShutdown)
            }
            &&& event matches ObserveEventView::Connected(Err(error)) ==> action
                == ObserveActionView::Finish(Err(SessionErrorView::Connect(error)))
            &&& event matches ObserveEventView::Sent(Err(error)) ==> action
                == ObserveActionView::Finish(Err(SessionErrorView::Framing(error)))
            &&& event matches ObserveEventView::Received(Err(error)) ==> !reading || !(
            error is UnexpectedEof) ==> action == ObserveActionView::Finish(
                Err(SessionErrorView::Framing(error)),
            )
            &&& session.phase is AwaitingWelcome ==> (
            event matches ObserveEventView::Received(Ok(received)) ==> (
            welcome_fault(received) matches Some(fault) ==> action == ObserveActionView::Finish(
                Err(fault),
            )))
        }),
{
}

/// What a session does while nothing ends it: it greets once it is connected,
/// waits for the welcome, asks to observe, then asks the hub before every read and
/// hands over each frame that it reads, under its own terminal's id.
pub proof fn law_how_an_observer_goes_on(session: ObserverView, event: ObserveEventView)
    requires
        observe_answers(session.phase, event),
        !(observe_step(session, event).1 is Finish),
    ensures
        ({
            let (phase, action) = observe_step(session, event);
            match session.phase {
                ObservePhase::Connecting => phase is Greeting && (
                action matches ObserveActionView::Send(message) && message is Hello),
                ObservePhase::Greeting => phase is AwaitingWelcome && action is Receive,
                ObservePhase::AwaitingWelcome => phase is Switching && (
                action matches ObserveActionView::Send(message) && message is ObserveTerminal),
                ObservePhase::Switching => phase is CheckingHub && action is CheckHub,
                ObservePhase::CheckingHub => phase is Reading && action is Receive,
                ObservePhase::Reading => {
                    &&& event matches ObserveEventView::Received(Ok(received))
                    &&& match received.message {
                        ServerMessageView::Frame(frame) => phase is Delivering && (
                        action matches ObserveActionView::Deliver(handed) && handed.frame == frame
                            && handed.terminal_id == session.terminal_id),
                        _ => phase is CheckingHub && action is CheckHub,
                    }
                },
                ObservePhase::Delivering => phase is CheckingHub && action is CheckHub,
                ObservePhase::Finished => false,
            }
        }),
{
}

/// The first message of a session that was started for a viewport of `cols` by `rows`
/// greets with the hub's own version and that viewport.
pub proof fn law_a_started_observer_greets_with_its_viewport(
    raw_terminal_id: &TerminalId,
    namespaced_terminal_id: &TerminalId,
    cols: u16,
    rows: u16,
    started: (ObserverSession, ObserveAction),
    events: Seq<ObserveEventView>,
)
    requires
        call_ensures(
            ObserverSession::start,
            (raw_terminal_id, namespaced_terminal_id, cols, rows),
            started,
        ),
        observe_runs(started.0@, events),
        observe_trace(started.0@, events).sent.len() > 0,
    ensures
        observe_trace(started.0@, events).sent[0] matches ClientMessageView::Hello(hello)
            && hello.cols == cols && hello.rows == rows && hello.version == PROTOCOL_VERSION,
{
    law_observer_asks_for_its_own_view(started.0@, events);
}

/// A frame is seen as what is held, field by field.
pub proof fn law_what_is_seen_is_held(frame: ForeignFrame)
    ensures
        frame@.terminal_id == frame.terminal_id@,
        frame@.frame == frame.frame,
{
}

/// When a session ends: where connecting, sending or receiving fails, where the welcome is
/// refused, where the server shuts down, and where the hub no longer listens. Nothing else
/// ends it.
pub proof fn law_when_an_observer_ends(session: ObserverView, event: ObserveEventView)
    requires
        observe_answers(session.phase, event),
    ensures
        observe_step(session, event).1 is Finish <==> match event {
            ObserveEventView::Connected(connected) => connected is Err,
            ObserveEventView::Sent(sent) => sent is Err,
            ObserveEventView::Received(Err(_)) => true,
            ObserveEventView::Received(Ok(received)) => if session.phase is AwaitingWelcome {
                welcome_fault(received) is Some
            } else {
                received.message is ServerShutdown
            },
            ObserveEventView::Hub { open } => !open,
            ObserveEventView::Delivered(delivery) => delivery == (Delivery::Dropped {
                hub_open: false,
            }),
        },
{
}

/// What a session waits for: the outcome of the one thing that it does in its phase, and
/// nothing once it is finished.
pub proof fn law_what_an_observer_waits_for(phase: ObservePhase, event: ObserveEventView)
    ensures
        event is Connected ==> (observe_answers(phase, event) <==> phase is Connecting),
        event is Sent ==> (observe_answers(phase, event) <==> phase is Greeting || phase
            is Switching),
        event is Received ==> (observe_answers(phase, event) <==> phase is AwaitingWelcome || phase
            is Reading),
        event is Hub ==> (observe_answers(phase, event) <==> phase is CheckingHub),
        event is Delivered ==> (observe_answers(phase, event) <==> phase is Delivering),
{
}

} // verus!
