//! What the sessions on a remote's client socket have in common: the handshake
//! and the ways to fail.
use vstd::prelude::*;

use crate::live_view::status_of;
use crate::protocol::{
    framing_error_text, ClientKeybindings, ClientLaunchMode, FramingError, FramingErrorView, Hello,
    RenderEncoding, ServerMessage, ServerMessageView, PROTOCOL_VERSION,
};
use crate::text::{decimal, decimal_text};

verus! {

/// Why a session failed.
#[derive(Debug)]
pub enum SessionError {
    /// The socket could not be connected; the failure in words.
    Connect(String),
    /// A message of the handshake could not be sent or received.
    Framing(FramingError),
    /// The server turned the client down.
    Rejected(String),
    /// The two sides speak different versions.
    ProtocolMismatch { remote: u32, local: u32 },
    /// The server answered something else than a welcome.
    UnexpectedMessage(String),
}

/// A failure, as text.
pub enum SessionErrorView {
    Connect(Seq<char>),
    Framing(FramingErrorView),
    Rejected(Seq<char>),
    ProtocolMismatch { remote: u32, local: u32 },
    UnexpectedMessage(Seq<char>),
}

impl View for SessionError {
    type V = SessionErrorView;

    open spec fn view(&self) -> SessionErrorView {
        match self {
            SessionError::Connect(error) => SessionErrorView::Connect(error@),
            SessionError::Framing(error) => SessionErrorView::Framing(error@),
            SessionError::Rejected(message) => SessionErrorView::Rejected(message@),
            SessionError::ProtocolMismatch { remote, local } => {
                SessionErrorView::ProtocolMismatch { remote: *remote, local: *local }
            },
            SessionError::UnexpectedMessage(message) => {
                SessionErrorView::UnexpectedMessage(message@)
            },
        }
    }
}

/// A failure in words.
pub open spec fn session_error_text(error: SessionErrorView) -> Seq<char> {
    match error {
        SessionErrorView::Connect(message) => "connect failed: "@ + message,
        SessionErrorView::Framing(error) => "framing error: "@ + framing_error_text(error),
        SessionErrorView::Rejected(message) => "server rejected: "@ + message,
        SessionErrorView::ProtocolMismatch { remote, local } => "protocol mismatch: remote="@
            + decimal(remote as nat) + " local="@ + decimal(local as nat),
        SessionErrorView::UnexpectedMessage(message) => "unexpected message: "@ + message,
    }
}

impl SessionError {
    /// The failure in words.
    pub fn to_string(&self) -> (r: String)
        ensures
            r@ == session_error_text(self@),
    {
        match self {
            SessionError::Connect(error) => {
                let mut r = "connect failed: ".to_owned();
                r.append(error.as_str());
                r
            },
            SessionError::Framing(error) => {
                let mut r = "framing error: ".to_owned();
                r.append(error.to_string().as_str());
                r
            },
            SessionError::Rejected(message) => {
                let mut r = "server rejected: ".to_owned();
                r.append(message.as_str());
                r
            },
            SessionError::ProtocolMismatch { remote, local } => {
                let mut r = "protocol mismatch: remote=".to_owned();
                r.append(decimal_text(*remote as u64).as_str());
                r.append(" local=");
                r.append(decimal_text(*local as u64).as_str());
                r
            },
            SessionError::UnexpectedMessage(message) => {
                let mut r = "unexpected message: ".to_owned();
                r.append(message.as_str());
                r
            },
        }
    }
}

/// The opening message of a session for a viewport.
pub open spec fn hello_of(cols: u16, rows: u16) -> Hello {
    Hello {
        version: PROTOCOL_VERSION,
        cols,
        rows,
        cell_width_px: 0,
        cell_height_px: 0,
        requested_encoding: RenderEncoding::SemanticFrame,
        keybindings: ClientKeybindings::Server,
        launch_mode: ClientLaunchMode::TerminalAttach,
    }
}

/// The opening message of a session for a viewport.
pub fn hello(cols: u16, rows: u16) -> (r: Hello)
    ensures
        r == hello_of(cols, rows),
{
    Hello {
        version: PROTOCOL_VERSION,
        cols,
        rows,
        cell_width_px: 0,
        cell_height_px: 0,
        requested_encoding: RenderEncoding::SemanticFrame,
        keybindings: ClientKeybindings::Server,
        launch_mode: ClientLaunchMode::TerminalAttach,
    }
}

/// A message that came in, and how a log shows it.
#[derive(Debug)]
pub struct Received {
    pub message: ServerMessage,
    pub shown: String,
}

/// A message that came in.
pub struct ReceivedView {
    pub message: ServerMessageView,
    pub shown: Seq<char>,
}

impl View for Received {
    type V = ReceivedView;

    open spec fn view(&self) -> ReceivedView {
        ReceivedView { message: self.message@, shown: self.shown@ }
    }
}

/// What is wrong with the first message of a server; nothing where it welcomes
/// the client in the client's own version.
pub open spec fn welcome_fault(received: ReceivedView) -> Option<SessionErrorView> {
    match received.message {
        ServerMessageView::Welcome { version, encoding: _, error } => match error {
            Some(message) => Some(SessionErrorView::Rejected(message)),
            None => if version != PROTOCOL_VERSION {
                Some(
                    SessionErrorView::ProtocolMismatch {
                        remote: version,
                        local: PROTOCOL_VERSION,
                    },
                )
            } else {
                None
            },
        },
        _ => Some(SessionErrorView::UnexpectedMessage(received.shown)),
    }
}

/// Judges the first message of a server.
pub fn check_welcome(received: Received) -> (r: Result<(), SessionError>)
    ensures
        match welcome_fault(received@) {
            None => r is Ok,
            Some(fault) => r matches Err(error) && error@ == fault,
        },
{
    match received.message {
        ServerMessage::Welcome { version, encoding: _, error } => match error {
            Some(message) => Err(SessionError::Rejected(message)),
            None => if version != PROTOCOL_VERSION {
                Err(SessionError::ProtocolMismatch { remote: version, local: PROTOCOL_VERSION })
            } else {
                Ok(())
            },
        },
        _ => Err(SessionError::UnexpectedMessage(received.shown)),
    }
}

/// The handshake keeps what the live view status promises: a welcome without an
/// error is accepted exactly if its version can carry a live view, and a
/// welcome with one never is.
pub proof fn law_handshake_agrees_with_status(
    version: u32,
    encoding: RenderEncoding,
    error: Option<Seq<char>>,
    shown: Seq<char>,
)
    ensures
        welcome_fault(
            ReceivedView {
                message: ServerMessageView::Welcome { version, encoding, error },
                shown,
            },
        ) is None <==> error is None && status_of(Some(version)) is Attachable,
{
}

/// The hello announces the hub's own version and viewport, and asks for what a
/// terminal view needs: frames of cells, without pixel sizes, under the server's
/// key bindings, for an attached terminal.
pub proof fn law_the_hello_announces_the_viewport(cols: u16, rows: u16)
    ensures
        hello_of(cols, rows).cols == cols,
        hello_of(cols, rows).rows == rows,
        hello_of(cols, rows).version == PROTOCOL_VERSION,
        hello_of(cols, rows).cell_width_px == 0,
        hello_of(cols, rows).cell_height_px == 0,
        hello_of(cols, rows).requested_encoding is SemanticFrame,
        hello_of(cols, rows).keybindings is Server,
        hello_of(cols, rows).launch_mode is TerminalAttach,
{
}

/// What a first message is refused for: the server's own reason where it gives
/// one, else the two versions where they differ; anything but a welcome is
/// reported as the log shows it.
pub proof fn law_refusals_give_their_reason(received: ReceivedView)
    ensures
        match received.message {
            ServerMessageView::Welcome { version, encoding, error } => {
                &&& error matches Some(reason) ==> welcome_fault(received) == Some(
                    SessionErrorView::Rejected(reason),
                )
                &&& error is None && version != PROTOCOL_VERSION ==> {
                    &&& welcome_fault(received) matches Some(SessionErrorView::ProtocolMismatch {
                        remote,
                        local,
                    })
                    &&& remote == version
                    &&& local == PROTOCOL_VERSION
                }
                &&& error is None && version == PROTOCOL_VERSION ==> welcome_fault(received)
                    is None
            },
            _ => welcome_fault(received) == Some(
                SessionErrorView::UnexpectedMessage(received.shown),
            ),
        },
{
}

/// A failure in words ends with what it is about, word for word.
pub proof fn law_failures_are_told_in_full(
    message: Seq<char>,
    framing: FramingErrorView,
    remote: u32,
    local: u32,
)
    ensures
        "connect failed: "@.is_prefix_of(session_error_text(SessionErrorView::Connect(message))),
        message.is_suffix_of(session_error_text(SessionErrorView::Connect(message))),
        "server rejected: "@.is_prefix_of(session_error_text(SessionErrorView::Rejected(message))),
        message.is_suffix_of(session_error_text(SessionErrorView::Rejected(message))),
        "unexpected message: "@.is_prefix_of(
            session_error_text(SessionErrorView::UnexpectedMessage(message)),
        ),
        message.is_suffix_of(session_error_text(SessionErrorView::UnexpectedMessage(message))),
        session_error_text(SessionErrorView::Connect(message)).len() == 16 + message.len(),
        session_error_text(SessionErrorView::Rejected(message)).len() == 17 + message.len(),
        session_error_text(SessionErrorView::UnexpectedMessage(message)).len() == 20
            + message.len(),
        session_error_text(SessionErrorView::Framing(framing)).len() == 15 + framing_error_text(
            framing,
        ).len(),
        session_error_text(SessionErrorView::ProtocolMismatch { remote, local }).len() == 33
            + decimal(remote as nat).len() + decimal(local as nat).len(),
        "framing error: "@.is_prefix_of(session_error_text(SessionErrorView::Framing(framing))),
        framing_error_text(framing).is_suffix_of(
            session_error_text(SessionErrorView::Framing(framing)),
        ),
        ("protocol mismatch: remote="@ + decimal(remote as nat) + " local="@).is_prefix_of(
            session_error_text(SessionErrorView::ProtocolMismatch { remote, local }),
        ),
        decimal(local as nat).is_suffix_of(
            session_error_text(SessionErrorView::ProtocolMismatch { remote, local }),
        ),
{
    reveal_strlit("connect failed: ");
    reveal_strlit("server rejected: ");
    reveal_strlit("unexpected message: ");
    reveal_strlit("framing error: ");
    reveal_strlit("protocol mismatch: remote=");
    reveal_strlit(" local=");
}

/// A message is seen as what is held, field by field.
pub proof fn law_what_is_seen_is_held(received: Received)
    ensures
        received@.message == received.message@,
        received@.shown == received.shown@,
{
}

} // verus!
