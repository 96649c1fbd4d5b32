use herdr_federation::control::{
    ControlAction, ControlCommand, ControlEvent, ControlPhase, ControlSessionError,
    ControllerSession,
};
use herdr_federation::protocol::{
    ClientMessage, FramingError, RenderEncoding, ServerMessage, PROTOCOL_VERSION,
};
use herdr_federation::session::Received;
use herdr_federation::terminal::TerminalId;

fn start() -> ControllerSession {
    let (session, action) = ControllerSession::start(&TerminalId::from_string("term_1"), 80, 24);
    assert!(matches!(action, ControlAction::Connect));
    session
}

fn welcome(version: u32, error: Option<&str>) -> ControlEvent {
    ControlEvent::Received(Ok(Received {
        message: ServerMessage::Welcome {
            version,
            encoding: RenderEncoding::SemanticFrame,
            error: error.map(|text| text.to_string()),
        },
        shown: "Welcome".to_string(),
    }))
}

/// A session that has just taken control.
fn controlling() -> ControllerSession {
    let mut session = start();
    session.step(ControlEvent::Connected(Ok(())));
    session.step(ControlEvent::Sent(Ok(())));
    session.step(welcome(PROTOCOL_VERSION, None));
    let action = session.step(ControlEvent::Sent(Ok(())));
    assert!(matches!(action, ControlAction::NextCommand));
    session
}

#[test]
fn control_session_error_display_variants() {
    let connect = ControlSessionError::Connect("no such socket".to_string()).to_string();
    assert!(connect.contains("connect failed"), "{connect}");

    let framing = ControlSessionError::Framing(FramingError::UnexpectedEof).to_string();
    assert!(framing.contains("framing error"), "{framing}");

    let rejected = ControlSessionError::Rejected("bad".to_string()).to_string();
    assert!(rejected.contains("server rejected"), "{rejected}");

    let mismatch = ControlSessionError::ProtocolMismatch { remote: 5, local: 20 };
    let mismatch = mismatch.to_string();
    assert!(mismatch.contains("protocol mismatch"), "{mismatch}");
    assert!(mismatch.contains('5'), "{mismatch}");
    assert!(mismatch.contains("20"), "{mismatch}");

    let unexpected = ControlSessionError::UnexpectedMessage("wat".to_string()).to_string();
    assert!(unexpected.contains("unexpected message"), "{unexpected}");
}

#[test]
fn control_session_errors_are_exact() {
    assert_eq!(
        ControlSessionError::Connect("no such socket".to_string()).to_string(),
        "connect failed: no such socket"
    );
    assert_eq!(
        ControlSessionError::Framing(FramingError::Other("torn".to_string())).to_string(),
        "framing error: torn"
    );
    assert_eq!(
        ControlSessionError::ProtocolMismatch { remote: 5, local: 20 }.to_string(),
        "protocol mismatch: remote=5 local=20"
    );
}

#[test]
fn a_controller_greets_takes_control_and_forwards() {
    let mut session = start();
    match session.step(ControlEvent::Connected(Ok(()))) {
        ControlAction::Send(ClientMessage::Hello(hello)) => {
            assert_eq!(hello.version, PROTOCOL_VERSION);
            assert_eq!((hello.cols, hello.rows), (80, 24));
            assert_eq!((hello.cell_width_px, hello.cell_height_px), (0, 0));
        }
        other => panic!("unexpected {other:?}"),
    }
    assert!(matches!(session.step(ControlEvent::Sent(Ok(()))), ControlAction::Receive));
    match session.step(welcome(PROTOCOL_VERSION, None)) {
        ControlAction::Send(ClientMessage::ControlTerminal { target, takeover }) => {
            assert_eq!(target, "term_1");
            assert!(takeover);
        }
        other => panic!("unexpected {other:?}"),
    }
    assert!(matches!(session.step(ControlEvent::Sent(Ok(()))), ControlAction::NextCommand));
    match session.step(ControlEvent::Command(Some(ControlCommand::Input(vec![1, 2, 3])))) {
        ControlAction::Send(ClientMessage::Input { data }) => assert_eq!(data, vec![1, 2, 3]),
        other => panic!("unexpected {other:?}"),
    }
    assert!(matches!(session.step(ControlEvent::Sent(Ok(()))), ControlAction::NextCommand));
    match session.step(ControlEvent::Command(Some(ControlCommand::Resize { cols: 1, rows: 2 }))) {
        ControlAction::Send(ClientMessage::Resize { cols, rows, cell_width_px, cell_height_px }) => {
            assert_eq!((cols, rows, cell_width_px, cell_height_px), (1, 2, 0, 0));
        }
        other => panic!("unexpected {other:?}"),
    }
    session.step(ControlEvent::Sent(Ok(())));
    assert!(matches!(
        session.step(ControlEvent::Command(None)),
        ControlAction::Finish(Ok(()))
    ));
    assert_eq!(session.phase(), ControlPhase::Finished);
    assert!(!session.awaits(&ControlEvent::Sent(Ok(()))));
}

#[test]
fn a_lost_connection_ends_forwarding_cleanly() {
    let mut session = controlling();
    session.step(ControlEvent::Command(Some(ControlCommand::Input(vec![]))));
    assert!(matches!(
        session.step(ControlEvent::Sent(Err(FramingError::UnexpectedEof))),
        ControlAction::Finish(Ok(()))
    ));
}

#[test]
fn a_failed_handshake_is_an_error() {
    let mut session = start();
    assert!(matches!(
        session.step(ControlEvent::Connected(Err("refused".to_string()))),
        ControlAction::Finish(Err(ControlSessionError::Connect(error))) if error == "refused"
    ));

    let mut session = start();
    session.step(ControlEvent::Connected(Ok(())));
    assert!(matches!(
        session.step(ControlEvent::Sent(Err(FramingError::UnexpectedEof))),
        ControlAction::Finish(Err(ControlSessionError::Framing(FramingError::UnexpectedEof)))
    ));

    let mut session = start();
    session.step(ControlEvent::Connected(Ok(())));
    session.step(ControlEvent::Sent(Ok(())));
    assert!(matches!(
        session.step(ControlEvent::Received(Err(FramingError::UnexpectedEof))),
        ControlAction::Finish(Err(ControlSessionError::Framing(_)))
    ));

    let mut session = start();
    session.step(ControlEvent::Connected(Ok(())));
    session.step(ControlEvent::Sent(Ok(())));
    session.step(welcome(PROTOCOL_VERSION, None));
    assert!(matches!(
        session.step(ControlEvent::Sent(Err(FramingError::UnexpectedEof))),
        ControlAction::Finish(Err(ControlSessionError::Framing(_)))
    ));
}

#[test]
fn an_unwelcome_controller_never_takes_control() {
    let answer = |event: ControlEvent| {
        let mut session = start();
        session.step(ControlEvent::Connected(Ok(())));
        session.step(ControlEvent::Sent(Ok(())));
        assert!(session.awaits(&event));
        session.step(event)
    };
    assert!(matches!(
        answer(welcome(PROTOCOL_VERSION, Some("busy"))),
        ControlAction::Finish(Err(ControlSessionError::Rejected(error))) if error == "busy"
    ));
    assert!(matches!(
        answer(welcome(PROTOCOL_VERSION + 1, None)),
        ControlAction::Finish(Err(ControlSessionError::ProtocolMismatch { remote, local }))
            if remote == PROTOCOL_VERSION + 1 && local == PROTOCOL_VERSION
    ));
    let other = ControlEvent::Received(Ok(Received {
        message: ServerMessage::Other,
        shown: "Other".to_string(),
    }));
    assert!(matches!(
        answer(other),
        ControlAction::Finish(Err(ControlSessionError::UnexpectedMessage(shown))) if shown == "Other"
    ));
}
