use herdr_federation::observe::{
    Delivery, ForeignFrame, ObserveAction, ObserveEvent, ObservePhase, ObserveSessionError,
    ObserverSession,
};
use herdr_federation::protocol::{
    ClientMessage, FrameData, FramingError, RenderEncoding, ServerMessage, PROTOCOL_VERSION,
};
use herdr_federation::session::Received;
use herdr_federation::terminal::TerminalId;

fn received(message: ServerMessage) -> ObserveEvent {
    let shown = format!("{message:?}");
    ObserveEvent::Received(Ok(Received { message, shown }))
}

fn welcome(version: u32, error: Option<&str>) -> ServerMessage {
    ServerMessage::Welcome {
        version,
        encoding: RenderEncoding::SemanticFrame,
        error: error.map(|text| text.to_string()),
    }
}

fn start() -> ObserverSession {
    let (session, action) = ObserverSession::start(
        &TerminalId::from_string("term_1"),
        &TerminalId::from_string("fed~nTEST~term_1"),
        80,
        24,
    );
    assert!(matches!(action, ObserveAction::Connect));
    session
}

/// Runs a session against a server that answers with these messages and then
/// closes the connection. Gives back the outcome, what the session sent and the
/// frames it handed over.
fn run(
    messages: Vec<ServerMessage>,
) -> (Result<(), ObserveSessionError>, Vec<ClientMessage>, Vec<ForeignFrame>) {
    let mut session = start();
    let mut messages = messages.into_iter();
    let mut sent = Vec::new();
    let mut frames = Vec::new();
    let mut action = session.step(ObserveEvent::Connected(Ok(())));
    loop {
        let event = match action {
            ObserveAction::Connect => unreachable!(),
            ObserveAction::Send(message) => {
                sent.push(message);
                ObserveEvent::Sent(Ok(()))
            }
            ObserveAction::Receive => match messages.next() {
                Some(message) => received(message),
                None => ObserveEvent::Received(Err(FramingError::UnexpectedEof)),
            },
            ObserveAction::CheckHub => ObserveEvent::Hub { open: true },
            ObserveAction::Deliver(frame) => {
                frames.push(frame);
                ObserveEvent::Delivered(Delivery::Accepted)
            }
            ObserveAction::Finish(outcome) => return (outcome, sent, frames),
        };
        assert!(session.awaits(&event));
        action = session.step(event);
    }
}

fn frame(symbols: Vec<&str>) -> FrameData {
    FrameData {
        width: 3,
        height: 2,
        symbols: symbols.into_iter().map(|symbol| symbol.to_string()).collect(),
        encoded: vec![3, 2],
    }
}

#[test]
fn observe_session_error_display_variants() {
    let connect = ObserveSessionError::Connect("no such socket".to_string()).to_string();
    assert!(connect.contains("connect failed"), "{connect}");

    let framing = ObserveSessionError::Framing(FramingError::UnexpectedEof).to_string();
    assert!(framing.contains("framing error"), "{framing}");

    let rejected = ObserveSessionError::Rejected("bad".to_string()).to_string();
    assert!(rejected.contains("server rejected"), "{rejected}");

    let mismatch = ObserveSessionError::ProtocolMismatch { remote: 5, local: 20 };
    let mismatch = mismatch.to_string();
    assert!(mismatch.contains("protocol mismatch"), "{mismatch}");
    assert!(mismatch.contains('5'), "{mismatch}");
    assert!(mismatch.contains("20"), "{mismatch}");

    let unexpected = ObserveSessionError::UnexpectedMessage("wat".to_string()).to_string();
    assert!(unexpected.contains("unexpected message"), "{unexpected}");
}

#[test]
fn observer_receives_frames_from_mock_server() {
    let shown = frame(vec!["H", "I", " ", " ", " ", " "]);
    let (outcome, sent, frames) = run(vec![
        welcome(PROTOCOL_VERSION, None),
        ServerMessage::Frame(shown.clone()),
    ]);

    outcome.expect("observer session must succeed");
    assert_eq!(frames.len(), 1);
    assert_eq!(frames[0].terminal_id, TerminalId::from_string("fed~nTEST~term_1"));
    assert_eq!(frames[0].frame.width, 3);
    assert_eq!(frames[0].frame.height, 2);
    assert_eq!(frames[0].frame.symbols[0], "H");
    assert_eq!(frames[0].frame.symbols[1], "I");
    assert_eq!(frames[0].frame.encoded, vec![3, 2]);

    assert_eq!(sent.len(), 2);
    assert!(matches!(&sent[0], ClientMessage::Hello(hello) if hello.version == PROTOCOL_VERSION));
    assert!(matches!(&sent[1], ClientMessage::ObserveTerminal { target } if target == "term_1"));
}

#[test]
fn observer_handles_server_rejection() {
    let (outcome, sent, frames) = run(vec![welcome(PROTOCOL_VERSION, Some("test rejection"))]);
    match outcome {
        Err(ObserveSessionError::Rejected(msg)) => {
            assert!(msg.contains("test rejection"), "rejection message: {msg}");
        }
        other => panic!("expected Rejected error, got {other:?}"),
    }
    assert_eq!(sent.len(), 1);
    assert!(frames.is_empty());
}

#[test]
fn observer_rejects_other_versions_and_messages() {
    let (outcome, _, _) = run(vec![welcome(PROTOCOL_VERSION - 1, None)]);
    assert!(matches!(
        outcome,
        Err(ObserveSessionError::ProtocolMismatch { remote, local })
            if remote == PROTOCOL_VERSION - 1 && local == PROTOCOL_VERSION
    ));
    let (outcome, _, frames) = run(vec![ServerMessage::Frame(frame(vec![]))]);
    assert!(matches!(
        outcome,
        Err(ObserveSessionError::UnexpectedMessage(shown)) if shown.starts_with("Frame")
    ));
    assert!(frames.is_empty());
    let (outcome, _, _) = run(vec![]);
    assert!(matches!(
        outcome,
        Err(ObserveSessionError::Framing(FramingError::UnexpectedEof))
    ));
}

#[test]
fn observer_keeps_the_order_and_ends_on_shutdown() {
    let (outcome, _, frames) = run(vec![
        welcome(PROTOCOL_VERSION, None),
        ServerMessage::Frame(frame(vec!["1"])),
        ServerMessage::Other,
        ServerMessage::Frame(frame(vec!["2"])),
        ServerMessage::ServerShutdown { reason: None },
        ServerMessage::Frame(frame(vec!["3"])),
    ]);
    assert!(outcome.is_ok());
    let symbols: Vec<&str> = frames.iter().map(|f| f.frame.symbols[0].as_str()).collect();
    assert_eq!(symbols, vec!["1", "2"]);
}

/// A session that reads frames.
fn reading() -> ObserverSession {
    let mut session = start();
    session.step(ObserveEvent::Connected(Ok(())));
    session.step(ObserveEvent::Sent(Ok(())));
    session.step(received(welcome(PROTOCOL_VERSION, None)));
    session.step(ObserveEvent::Sent(Ok(())));
    session.step(ObserveEvent::Hub { open: true });
    assert_eq!(session.phase(), ObservePhase::Reading);
    session
}

#[test]
fn observer_ends_when_the_hub_is_gone() {
    let mut session = reading();
    session.step(received(ServerMessage::Other));
    assert!(matches!(
        session.step(ObserveEvent::Hub { open: false }),
        ObserveAction::Finish(Ok(()))
    ));

    let mut session = reading();
    session.step(received(ServerMessage::Frame(frame(vec![]))));
    assert!(matches!(
        session.step(ObserveEvent::Delivered(Delivery::Dropped { hub_open: false })),
        ObserveAction::Finish(Ok(()))
    ));
}

#[test]
fn observer_drops_frames_of_a_busy_hub() {
    let mut session = reading();
    session.step(received(ServerMessage::Frame(frame(vec![]))));
    assert!(matches!(
        session.step(ObserveEvent::Delivered(Delivery::Dropped { hub_open: true })),
        ObserveAction::CheckHub
    ));
}

#[test]
fn observer_failures_are_errors() {
    assert!(matches!(
        start().step(ObserveEvent::Connected(Err("refused".to_string()))),
        ObserveAction::Finish(Err(ObserveSessionError::Connect(error))) if error == "refused"
    ));
    assert!(matches!(
        reading().step(ObserveEvent::Received(Err(FramingError::Other("torn".to_string())))),
        ObserveAction::Finish(Err(ObserveSessionError::Framing(FramingError::Other(error))))
            if error == "torn"
    ));
    let mut session = start();
    session.step(ObserveEvent::Connected(Ok(())));
    assert!(matches!(
        session.step(ObserveEvent::Sent(Err(FramingError::UnexpectedEof))),
        ObserveAction::Finish(Err(ObserveSessionError::Framing(_)))
    ));
}
