//! The writable path to a foreign pane: a session that takes control of a remote
//! terminal and forwards input to it.
//!
//! The session decides; whoever runs it performs each action on the remote's
//! client socket and reports what came of it.
use vstd::prelude::*;

use crate::protocol::{
    ClientMessage, ClientMessageView, FramingError, FramingErrorView, PROTOCOL_VERSION,
};
use crate::session::{
    check_welcome, hello, hello_of, law_the_hello_announces_the_viewport, welcome_fault, Received,
    ReceivedView, SessionError, SessionErrorView,
};
use crate::terminal::TerminalId;

verus! {

/// Why a controller session failed.
pub type ControlSessionError = SessionError;

/// Command sent to a foreign controller.
#[derive(Debug)]
pub enum ControlCommand {
    /// Raw input bytes to forward to the remote terminal.
    Input(Vec<u8>),
    /// The new dimensions of the viewport on this terminal.
    Resize { cols: u16, rows: u16 },
}

/// A command, as bytes.
pub enum CommandView {
    Input(Seq<u8>),
    Resize { cols: u16, rows: u16 },
}

impl View for ControlCommand {
    type V = CommandView;

    open spec fn view(&self) -> CommandView {
        match self {
            ControlCommand::Input(data) => CommandView::Input(data@),
            ControlCommand::Resize { cols, rows } => CommandView::Resize {
                cols: *cols,
                rows: *rows,
            },
        }
    }
}

/// The message that carries a command.
pub open spec fn message_of(command: CommandView) -> ClientMessageView {
    match command {
        CommandView::Input(data) => ClientMessageView::Input { data },
        CommandView::Resize { cols, rows } => ClientMessageView::Resize {
            cols,
            rows,
            cell_width_px: 0,
            cell_height_px: 0,
        },
    }
}

/// The message that carries a command.
pub fn command_message(command: ControlCommand) -> (r: ClientMessage)
    ensures
        r@ == message_of(command@),
{
    match command {
        ControlCommand::Input(data) => ClientMessage::Input { data },
        ControlCommand::Resize { cols, rows } => ClientMessage::Resize {
            cols,
            rows,
            cell_width_px: 0,
            cell_height_px: 0,
        },
    }
}

/// What a controller session waits for.
#[derive(Debug, Clone, Copy, PartialEq, Eq, Structural)]
pub enum ControlPhase {
    /// For the connection.
    Connecting,
    /// For its hello to be sent.
    Greeting,
    /// For the server's welcome.
    AwaitingWelcome,
    /// For its request to take control to be sent.
    TakingControl,
    /// For the next command.
    AwaitingCommand,
    /// For a command to be sent.
    Forwarding,
    /// For nothing: the session is over.
    Finished,
}

/// What came of an action.
#[derive(Debug)]
pub enum ControlEvent {
    /// Of connecting; a failure in words.
    Connected(Result<(), String>),
    /// Of sending.
    Sent(Result<(), FramingError>),
    /// Of receiving.
    Received(Result<Received, FramingError>),
    /// Of waiting for a command; none where no more will come.
    Command(Option<ControlCommand>),
}

/// What came of an action, as text and bytes.
pub enum ControlEventView {
    Connected(Result<(), Seq<char>>),
    Sent(Result<(), FramingErrorView>),
    Received(Result<ReceivedView, FramingErrorView>),
    Command(Option<CommandView>),
}

impl View for ControlEvent {
    type V = ControlEventView;

    open spec fn view(&self) -> ControlEventView {
        match self {
            ControlEvent::Connected(Ok(_)) => ControlEventView::Connected(Ok(())),
            ControlEvent::Connected(Err(error)) => ControlEventView::Connected(Err(error@)),
            ControlEvent::Sent(Ok(_)) => ControlEventView::Sent(Ok(())),
            ControlEvent::Sent(Err(error)) => ControlEventView::Sent(Err(error@)),
            ControlEvent::Received(Ok(received)) => ControlEventView::Received(Ok(received@)),
            ControlEvent::Received(Err(error)) => ControlEventView::Received(Err(error@)),
            ControlEvent::Command(Some(command)) => ControlEventView::Command(Some(command@)),
            ControlEvent::Command(None) => ControlEventView::Command(None),
        }
    }
}

/// What to do next.
#[derive(Debug)]
pub enum ControlAction {
    Connect,
    Send(ClientMessage),
    Receive,
    NextCommand,
    /// The session is over: cleanly, or with a failure.
    Finish(Result<(), ControlSessionError>),
}

/// What to do next, as text and bytes.
pub enum ControlActionView {
    Connect,
    Send(ClientMessageView),
    Receive,
    NextCommand,
    Finish(Result<(), SessionErrorView>),
}

impl View for ControlAction {
    type V = ControlActionView;

    open spec fn view(&self) -> ControlActionView {
        match self {
            ControlAction::Connect => ControlActionView::Connect,
            ControlAction::Send(message) => ControlActionView::Send(message@),
            ControlAction::Receive => ControlActionView::Receive,
            ControlAction::NextCommand => ControlActionView::NextCommand,
            ControlAction::Finish(Ok(_)) => ControlActionView::Finish(Ok(())),
            ControlAction::Finish(Err(error)) => ControlActionView::Finish(Err(error@)),
        }
    }
}

/// A controller session.
#[derive(Debug)]
pub struct ControllerSession {
    phase: ControlPhase,
    target: String,
    cols: u16,
    rows: u16,
}

/// A controller session: what it waits for, the raw id of the terminal it
/// controls, and its viewport.
pub struct ControllerView {
    pub phase: ControlPhase,
    pub target: Seq<char>,
    pub cols: u16,
    pub rows: u16,
}

impl View for ControllerSession {
    type V = ControllerView;

    closed spec fn view(&self) -> ControllerView {
        ControllerView {
            phase: self.phase,
            target: self.target@,
            cols: self.cols,
            rows: self.rows,
        }
    }
}

/// Whether an event is what a phase waits for.
pub open spec fn control_answers(phase: ControlPhase, event: ControlEventView) -> bool {
    match phase {
        ControlPhase::Connecting => event is Connected,
        ControlPhase::Greeting => event is Sent,
        ControlPhase::AwaitingWelcome => event is Received,
        ControlPhase::TakingControl => event is Sent,
        ControlPhase::AwaitingCommand => event is Command,
        ControlPhase::Forwarding => event is Sent,
        ControlPhase::Finished => false,
    }
}

/// The request to take control of the session's terminal.
pub open spec fn take_control(session: ControllerView) -> ClientMessageView {
    ClientMessageView::ControlTerminal { target: session.target, takeover: true }
}

/// What a session does when it learns what came of its last action, and what it
/// waits for then.
pub open spec fn control_step(session: ControllerView, event: ControlEventView) -> (
    ControlPhase,
    ControlActionView,
) {
    match session.phase {
        ControlPhase::Connecting => match event {
            ControlEventView::Connected(Ok(_)) => (
                ControlPhase::Greeting,
                ControlActionView::Send(
                    ClientMessageView::Hello(hello_of(session.cols, session.rows)),
                ),
            ),
            ControlEventView::Connected(Err(error)) => (
                ControlPhase::Finished,
                ControlActionView::Finish(Err(SessionErrorView::Connect(error))),
            ),
            _ => arbitrary(),
        },
        ControlPhase::Greeting => match event {
            ControlEventView::Sent(Ok(_)) => (
                ControlPhase::AwaitingWelcome,
                ControlActionView::Receive,
            ),
            ControlEventView::Sent(Err(error)) => (
                ControlPhase::Finished,
                ControlActionView::Finish(Err(SessionErrorView::Framing(error))),
            ),
            _ => arbitrary(),
        },
        ControlPhase::AwaitingWelcome => match event {
            ControlEventView::Received(Ok(received)) => match welcome_fault(received) {
                None => (
                    ControlPhase::TakingControl,
                    ControlActionView::Send(take_control(session)),
                ),
                Some(fault) => (
                    ControlPhase::Finished,
                    ControlActionView::Finish(Err(fault)),
                ),
            },
            ControlEventView::Received(Err(error)) => (
                ControlPhase::Finished,
                ControlActionView::Finish(Err(SessionErrorView::Framing(error))),
            ),
            _ => arbitrary(),
        },
        ControlPhase::TakingControl => match event {
            ControlEventView::Sent(Ok(_)) => (
                ControlPhase::AwaitingCommand,
                ControlActionView::NextCommand,
            ),
            ControlEventView::Sent(Err(error)) => (
                ControlPhase::Finished,
                ControlActionView::Finish(Err(SessionErrorView::Framing(error))),
            ),
            _ => arbitrary(),
        },
        ControlPhase::AwaitingCommand => match event {
            ControlEventView::Command(Some(command)) => (
                ControlPhase::Forwarding,
                ControlActionView::Send(message_of(command)),
            ),
            ControlEventView::Command(None) => (
                ControlPhase::Finished,
                ControlActionView::Finish(Ok(())),
            ),
            _ => arbitrary(),
        },
        // A command that cannot be sent ends the session cleanly: the
        // connection is lost, and the next session makes a new one.
        ControlPhase::Forwarding => match event {
            ControlEventView::Sent(Ok(_)) => (
                ControlPhase::AwaitingCommand,
                ControlActionView::NextCommand,
            ),
            ControlEventView::Sent(Err(_)) => (
                ControlPhase::Finished,
                ControlActionView::Finish(Ok(())),
            ),
            _ => arbitrary(),
        },
        ControlPhase::Finished => arbitrary(),
    }
}

impl ControllerSession {
    /// A session that controls the terminal with this raw id. Its first action
    /// is to connect.
    pub fn start(raw_terminal_id: &TerminalId, cols: u16, rows: u16) -> (r: (
        ControllerSession,
        ControlAction,
    ))
        ensures
            r.0@ == (ControllerView {
                phase: ControlPhase::Connecting,
                target: raw_terminal_id@,
                cols,
                rows,
            }),
            r.1@ == ControlActionView::Connect,
    {
        (
            ControllerSession {
                phase: ControlPhase::Connecting,
                target: raw_terminal_id.as_str().to_owned(),
                cols,
                rows,
            },
            ControlAction::Connect,
        )
    }

    /// What the session waits for.
    pub fn phase(&self) -> (r: ControlPhase)
        ensures
            r == self@.phase,
    {
        self.phase
    }

    /// Whether an event is what the session waits for.
    pub fn awaits(&self, event: &ControlEvent) -> (r: bool)
        ensures
            r == control_answers(self@.phase, event@),
    {
        match self.phase {
            ControlPhase::Connecting => matches!(event, ControlEvent::Connected(_)),
            ControlPhase::Greeting | ControlPhase::TakingControl | ControlPhase::Forwarding => {
                matches!(event, ControlEvent::Sent(_))
            },
            ControlPhase::AwaitingWelcome => matches!(event, ControlEvent::Received(_)),
            ControlPhase::AwaitingCommand => matches!(event, ControlEvent::Command(_)),
            ControlPhase::Finished => false,
        }
    }

    /// Learns what came of the last action and says what to do next.
    pub fn step(&mut self, event: ControlEvent) -> (r: ControlAction)
        requires
            control_answers(old(self)@.phase, event@),
        ensures
            (final(self)@.phase, r@) == control_step(old(self)@, event@),
            final(self)@.target == old(self)@.target,
            final(self)@.cols == old(self)@.cols,
            final(self)@.rows == old(self)@.rows,
    {
        match event {
            ControlEvent::Connected(Ok(_)) => {
                self.phase = ControlPhase::Greeting;
                ControlAction::Send(ClientMessage::Hello(hello(self.cols, self.rows)))
            },
            ControlEvent::Connected(Err(error)) => {
                self.phase = ControlPhase::Finished;
                ControlAction::Finish(Err(SessionError::Connect(error)))
            },
            ControlEvent::Received(Ok(received)) => match check_welcome(received) {
                Ok(_) => {
                    self.phase = ControlPhase::TakingControl;
                    ControlAction::Send(
                        ClientMessage::ControlTerminal {
                            target: self.target.clone(),
                            takeover: true,
                        },
                    )
                },
                Err(fault) => {
                    self.phase = ControlPhase::Finished;
                    ControlAction::Finish(Err(fault))
                },
            },
            ControlEvent::Received(Err(error)) => {
                self.phase = ControlPhase::Finished;
                ControlAction::Finish(Err(SessionError::Framing(error)))
            },
            ControlEvent::Command(Some(command)) => {
                self.phase = ControlPhase::Forwarding;
                ControlAction::Send(command_message(command))
            },
            ControlEvent::Command(None) => {
                self.phase = ControlPhase::Finished;
                ControlAction::Finish(Ok(()))
            },
            ControlEvent::Sent(Ok(_)) => {
                if self.phase == ControlPhase::Greeting {
                    self.phase = ControlPhase::AwaitingWelcome;
                    ControlAction::Receive
                } else {
                    self.phase = ControlPhase::AwaitingCommand;
                    ControlAction::NextCommand
                }
            },
            ControlEvent::Sent(Err(error)) => {
                let forwarding = self.phase == ControlPhase::Forwarding;
                self.phase = ControlPhase::Finished;
                if forwarding {
                    ControlAction::Finish(Ok(()))
                } else {
                    ControlAction::Finish(Err(SessionError::Framing(error)))
                }
            },
        }
    }
}

// ---------------------------------------------------------------------------
// Whole sessions

/// What a session has seen and done.
#[verifier::ext_equal]
pub struct ControlTrace {
    pub session: ControllerView,
    /// The messages it sent or tried to send.
    pub sent: Seq<ClientMessageView>,
    /// The commands it was given.
    pub commands: Seq<CommandView>,
    /// The messages it received.
    pub received: Seq<ReceivedView>,
}

/// A session that has just been started.
pub open spec fn control_started(session: ControllerView) -> ControlTrace {
    ControlTrace { session, sent: Seq::empty(), commands: Seq::empty(), received: Seq::empty() }
}

/// One event more.
pub open spec fn control_advanced(trace: ControlTrace, event: ControlEventView) -> ControlTrace {
    let (phase, action) = control_step(trace.session, event);
    ControlTrace {
        session: ControllerView {
            phase,
            target: trace.session.target,
            cols: trace.session.cols,
            rows: trace.session.rows,
        },
        sent: match action {
            ControlActionView::Send(message) => trace.sent.push(message),
            _ => trace.sent,
        },
        commands: match event {
            ControlEventView::Command(Some(command)) => trace.commands.push(command),
            _ => trace.commands,
        },
        received: match event {
            ControlEventView::Received(Ok(received)) => trace.received.push(received),
            _ => trace.received,
        },
    }
}

/// What a session has seen and done after a row of events.
pub open spec fn control_trace(
    session: ControllerView,
    events: Seq<ControlEventView>,
) -> ControlTrace
    decreases events.len(),
{
    if events.len() == 0 {
        control_started(session)
    } else {
        control_advanced(control_trace(session, events.drop_last()), events.last())
    }
}

/// Whether a row of events can come to a session that has just been started:
/// each is what the session then waits for.
pub open spec fn control_runs(session: ControllerView, events: Seq<ControlEventView>) -> bool
    decreases events.len(),
{
    if events.len() == 0 {
        session.phase == ControlPhase::Connecting
    } else {
        control_runs(session, events.drop_last()) && control_answers(
            control_trace(session, events.drop_last()).session.phase,
            events.last(),
        )
    }
}

/// What a session sends in all, if it gets that far: its hello, the request to
/// take control, then each command in turn.
pub open spec fn control_script(session: ControllerView, commands: Seq<CommandView>) -> Seq<
    ClientMessageView,
> {
    seq![
        ClientMessageView::Hello(hello_of(session.cols, session.rows)),
        take_control(session),
    ] + commands.map_values(|command: CommandView| message_of(command))
}

/// Whether a session has been welcomed: the one message it received is a
/// welcome in its own version, without an error.
pub open spec fn welcomed(received: Seq<ReceivedView>) -> bool {
    received.len() == 1 && welcome_fault(received[0]) is None
}

/// A session follows its script: what it has sent is the beginning of the
/// script, beyond the hello it has sent nothing unless it was welcomed, and
/// once it forwards it has sent every command that it was given, in order.
pub proof fn law_controller_follows_its_script(
    session: ControllerView,
    events: Seq<ControlEventView>,
)
    requires
        control_runs(session, events),
    ensures
        ({
            let trace = control_trace(session, events);
            &&& trace.sent.is_prefix_of(control_script(session, trace.commands))
            &&& trace.sent.len() > 1 ==> welcomed(trace.received)
            &&& trace.commands.len() > 0 ==> trace.sent == control_script(session, trace.commands)
        }),
{
    lemma_control_progress(session, events);
}

/// How far a session is in each phase.
proof fn lemma_control_progress(session: ControllerView, events: Seq<ControlEventView>)
    requires
        control_runs(session, events),
    ensures
        ({
            let trace = control_trace(session, events);
            let script = control_script(session, trace.commands);
            &&& trace.session.target == session.target
            &&& trace.session.cols == session.cols
            &&& trace.session.rows == session.rows
            &&& match trace.session.phase {
                ControlPhase::Connecting => trace.sent.len() == 0 && trace.commands.len() == 0
                    && trace.received.len() == 0,
                ControlPhase::Greeting => trace.sent == script.take(1) && trace.commands.len() == 0
                    && trace.received.len() == 0,
                ControlPhase::AwaitingWelcome => trace.sent == script.take(1)
                    && trace.commands.len() == 0 && trace.received.len() == 0,
                ControlPhase::TakingControl => trace.sent == script && trace.commands.len() == 0
                    && welcomed(trace.received),
                ControlPhase::AwaitingCommand => trace.sent == script && welcomed(trace.received),
                ControlPhase::Forwarding => trace.sent == script && welcomed(trace.received),
                ControlPhase::Finished => {
                    ||| trace.sent.len() == 0 && trace.commands.len() == 0
                    ||| trace.sent == script.take(1) && trace.commands.len() == 0
                    ||| trace.sent == script && welcomed(trace.received)
                },
            }
        }),
    decreases events.len(),
{
    let trace = control_trace(session, events);
    let script = control_script(session, trace.commands);
    if events.len() > 0 {
        let before = control_trace(session, events.drop_last());
        lemma_control_progress(session, events.drop_last());
        let old_script = control_script(session, before.commands);
        match events.last() {
            ControlEventView::Command(Some(command)) => {
                assert(script == old_script.push(message_of(command)));
            },
            _ => {
                assert(script == old_script);
            },
        }
        if before.commands.len() == 0 {
            assert(old_script.len() == 2);
            assert(old_script.take(1).push(old_script[1]) == old_script);
            assert(Seq::<ClientMessageView>::empty().push(old_script[0]) == old_script.take(1));
            assert(before.sent.len() == 0 ==> before.sent == Seq::<ClientMessageView>::empty());
        }
    }
}

/// What a session says to its server: first its own version and the viewport it
/// was started with, then the raw id of the terminal that it takes over, then each
/// command that it was given: the very bytes of an input, the very size of a
/// resize, in order.
pub proof fn law_controller_forwards_what_it_is_given(
    session: ControllerView,
    events: Seq<ControlEventView>,
)
    requires
        control_runs(session, events),
    ensures
        ({
            let trace = control_trace(session, events);
            let sent = trace.sent;
            &&& sent.len() <= 2 + trace.commands.len()
            &&& trace.commands.len() > 0 ==> sent.len() == 2 + trace.commands.len()
            &&& sent.len() > 0 ==> {
                &&& sent[0] matches ClientMessageView::Hello(hello)
                &&& hello.version == PROTOCOL_VERSION
                &&& hello.cols == session.cols
                &&& hello.rows == session.rows
            }
            &&& sent.len() > 1 ==> {
                &&& sent[1] matches ClientMessageView::ControlTerminal { target, takeover }
                &&& target == session.target
                &&& takeover
            }
            &&& forall|i: int|
                0 <= i < trace.commands.len() ==> match #[trigger] trace.commands[i] {
                    CommandView::Input(bytes) => {
                        &&& sent[i + 2] matches ClientMessageView::Input { data }
                        &&& data == bytes
                    },
                    CommandView::Resize { cols: wide, rows: high } => {
                        &&& sent[i + 2] matches ClientMessageView::Resize {
                            cols,
                            rows,
                            cell_width_px,
                            cell_height_px,
                        }
                        &&& cols == wide
                        &&& rows == high
                        &&& cell_width_px == 0
                        &&& cell_height_px == 0
                    },
                }
        }),
{
    lemma_control_progress(session, events);
    law_the_hello_announces_the_viewport(session.cols, session.rows);
    let trace = control_trace(session, events);
    let script = control_script(session, trace.commands);
    assert(script.take(1)[0] == script[0]);
    assert forall|i: int| 0 <= i < trace.commands.len() implies script[i + 2] == message_of(
        #[trigger] trace.commands[i],
    ) by {
    }
}

/// A session is what it was started for: the terminal of that raw id, in a
/// viewport of that size; and it begins by connecting.
pub proof fn law_controllers_start_as_asked(
    raw_terminal_id: &TerminalId,
    cols: u16,
    rows: u16,
    started: (ControllerSession, ControlAction),
)
    requires
        call_ensures(ControllerSession::start, (raw_terminal_id, cols, rows), started),
    ensures
        started.0@.target == raw_terminal_id@,
        started.0@.cols == cols,
        started.0@.rows == rows,
        started.0@.phase is Connecting,
        started.1@ is Connect,
{
}

/// When a session ends, and how. It ends cleanly where no more commands come and
/// where a command cannot be sent; it fails where connecting, the handshake or
/// taking control fails, and then it says with what.
pub proof fn law_how_a_controller_ends(session: ControllerView, event: ControlEventView)
    requires
        control_answers(session.phase, event),
    ensures
        ({
            let (phase, action) = control_step(session, event);
            let forwarding = session.phase is Forwarding;
            &&& phase is Finished <==> action is Finish
            &&& action == ControlActionView::Finish(Ok(())) <==> {
                ||| event == ControlEventView::Command(None)
                ||| forwarding && (event matches ControlEventView::Sent(sent) && sent is Err)
            }
            &&& event matches ControlEventView::Connected(Err(error)) ==> action
                == ControlActionView::Finish(Err(SessionErrorView::Connect(error)))
            &&& event matches ControlEventView::Sent(Err(error)) ==> !forwarding ==> action
                == ControlActionView::Finish(Err(SessionErrorView::Framing(error)))
            &&& event matches ControlEventView::Received(Err(error)) ==> action
                == ControlActionView::Finish(Err(SessionErrorView::Framing(error)))
            &&& event matches ControlEventView::Received(Ok(received)) ==> (
            welcome_fault(received) matches Some(fault) ==> action == ControlActionView::Finish(
                Err(fault),
            ))
        }),
{
}

/// What a session does while nothing ends it: it greets once it is connected,
/// waits for the welcome, takes control, and then waits for a command and sends
/// it, again and again.
pub proof fn law_how_a_controller_goes_on(session: ControllerView, event: ControlEventView)
    requires
        control_answers(session.phase, event),
        !(control_step(session, event).1 is Finish),
    ensures
        ({
            let (phase, action) = control_step(session, event);
            match session.phase {
                ControlPhase::Connecting => phase is Greeting && (
                action matches ControlActionView::Send(message) && message is Hello),
                ControlPhase::Greeting => phase is AwaitingWelcome && action is Receive,
                ControlPhase::AwaitingWelcome => phase is TakingControl && (
                action matches ControlActionView::Send(message) && message is ControlTerminal),
                ControlPhase::TakingControl => phase is AwaitingCommand && action is NextCommand,
                ControlPhase::AwaitingCommand => phase is Forwarding && action is Send,
                ControlPhase::Forwarding => phase is AwaitingCommand && action is NextCommand,
                ControlPhase::Finished => false,
            }
        }),
{
}

/// The first message of a session that was started for a viewport of `cols` by `rows`
/// greets with the hub's own version and that viewport.
pub proof fn law_a_started_controller_greets_with_its_viewport(
    raw_terminal_id: &TerminalId,
    cols: u16,
    rows: u16,
    started: (ControllerSession, ControlAction),
    events: Seq<ControlEventView>,
)
    requires
        call_ensures(ControllerSession::start, (raw_terminal_id, cols, rows), started),
        control_runs(started.0@, events),
        control_trace(started.0@, events).sent.len() > 0,
    ensures
        control_trace(started.0@, events).sent[0] matches ClientMessageView::Hello(hello)
            && hello.cols == cols && hello.rows == rows && hello.version == PROTOCOL_VERSION,
{
    law_controller_forwards_what_it_is_given(started.0@, events);
}

/// When a session ends: where connecting, sending or receiving fails, where the welcome is
/// refused, and where no more commands come. Nothing else ends it.
pub proof fn law_when_a_controller_ends(session: ControllerView, event: ControlEventView)
    requires
        control_answers(session.phase, event),
    ensures
        control_step(session, event).1 is Finish <==> match event {
            ControlEventView::Connected(connected) => connected is Err,
            ControlEventView::Sent(sent) => sent is Err,
            ControlEventView::Received(Err(_)) => true,
            ControlEventView::Received(Ok(received)) => welcome_fault(received) is Some,
            ControlEventView::Command(command) => command is None,
        },
{
}

/// What a session waits for: the outcome of the one thing that it does in its phase, and
/// nothing once it is finished.
pub proof fn law_what_a_controller_waits_for(phase: ControlPhase, event: ControlEventView)
    ensures
        event is Connected ==> (control_answers(phase, event) <==> phase is Connecting),
        event is Sent ==> (control_answers(phase, event) <==> phase is Greeting || phase
            is TakingControl || phase is Forwarding),
        event is Received ==> (control_answers(phase, event) <==> phase is AwaitingWelcome),
        event is Command ==> (control_answers(phase, event) <==> phase is AwaitingCommand),
{
}

/// Commands are seen as what they hold.
pub proof fn law_what_is_seen_is_held(command: ControlCommand)
    ensures
        match command {
            ControlCommand::Input(bytes) => command@ == CommandView::Input(bytes@),
            ControlCommand::Resize { cols, rows } => command@ == (CommandView::Resize {
                cols,
                rows,
            }),
        },
{
}

} // verus!
