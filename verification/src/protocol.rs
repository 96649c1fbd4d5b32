//! The messages of the client wire, as far as federation speaks it.
use vstd::prelude::*;

use crate::text::text_or_none;

verus! {

/// The version of the client wire. A live view needs the same on both sides.
pub const PROTOCOL_VERSION: u32 = 20;

/// How a server renders for a client.
#[derive(Debug, Clone, Copy, PartialEq, Eq, Structural)]
pub enum RenderEncoding {
    SemanticFrame,
}

/// Whose key bindings apply to a client.
#[derive(Debug, Clone, Copy, PartialEq, Eq, Structural)]
pub enum ClientKeybindings {
    Server,
}

/// What a client was started for.
#[derive(Debug, Clone, Copy, PartialEq, Eq, Structural)]
pub enum ClientLaunchMode {
    TerminalAttach,
}

/// The opening message of a client.
#[derive(Debug, Clone, Copy, PartialEq, Eq, Structural)]
pub struct Hello {
    pub version: u32,
    pub cols: u16,
    pub rows: u16,
    pub cell_width_px: u16,
    pub cell_height_px: u16,
    pub requested_encoding: RenderEncoding,
    pub keybindings: ClientKeybindings,
    pub launch_mode: ClientLaunchMode,
}

/// What a client sends.
#[derive(Debug)]
pub enum ClientMessage {
    Hello(Hello),
    ObserveTerminal { target: String },
    ControlTerminal { target: String, takeover: bool },
    Input { data: Vec<u8> },
    Resize { cols: u16, rows: u16, cell_width_px: u16, cell_height_px: u16 },
}

/// A client's message, as text and bytes.
pub enum ClientMessageView {
    Hello(Hello),
    ObserveTerminal { target: Seq<char> },
    ControlTerminal { target: Seq<char>, takeover: bool },
    Input { data: Seq<u8> },
    Resize { cols: u16, rows: u16, cell_width_px: u16, cell_height_px: u16 },
}

impl View for ClientMessage {
    type V = ClientMessageView;

    open spec fn view(&self) -> ClientMessageView {
        match self {
            ClientMessage::Hello(hello) => ClientMessageView::Hello(*hello),
            ClientMessage::ObserveTerminal { target } => ClientMessageView::ObserveTerminal {
                target: target@,
            },
            ClientMessage::ControlTerminal { target, takeover } => {
                ClientMessageView::ControlTerminal { target: target@, takeover: *takeover }
            },
            ClientMessage::Input { data } => ClientMessageView::Input { data: data@ },
            ClientMessage::Resize { cols, rows, cell_width_px, cell_height_px } => {
                ClientMessageView::Resize {
                    cols: *cols,
                    rows: *rows,
                    cell_width_px: *cell_width_px,
                    cell_height_px: *cell_height_px,
                }
            },
        }
    }
}

/// A rendered grid of cells: the symbol of each, row by row, and the whole frame
/// as its server encoded it, with colours, cursor and all. It is passed on as it
/// is.
#[derive(Debug, Clone, PartialEq, Eq)]
pub struct FrameData {
    pub width: u16,
    pub height: u16,
    pub symbols: Vec<String>,
    pub encoded: Vec<u8>,
}

/// What a server sends.
#[derive(Debug)]
pub enum ServerMessage {
    Welcome { version: u32, encoding: RenderEncoding, error: Option<String> },
    Frame(FrameData),
    ServerShutdown { reason: Option<String> },
    /// A message that federation has no use for.
    Other,
}

/// A server's message, as text.
pub enum ServerMessageView {
    Welcome { version: u32, encoding: RenderEncoding, error: Option<Seq<char>> },
    Frame(FrameData),
    ServerShutdown { reason: Option<Seq<char>> },
    Other,
}

impl View for ServerMessage {
    type V = ServerMessageView;

    open spec fn view(&self) -> ServerMessageView {
        match self {
            ServerMessage::Welcome { version, encoding, error } => ServerMessageView::Welcome {
                version: *version,
                encoding: *encoding,
                error: text_or_none(*error),
            },
            ServerMessage::Frame(frame) => ServerMessageView::Frame(*frame),
            ServerMessage::ServerShutdown { reason } => ServerMessageView::ServerShutdown {
                reason: text_or_none(*reason),
            },
            ServerMessage::Other => ServerMessageView::Other,
        }
    }
}

/// Why a message could not be sent or received.
#[derive(Debug)]
pub enum FramingError {
    /// The other side closed the connection.
    UnexpectedEof,
    /// Anything else, in words.
    Other(String),
}

/// A framing failure, as text.
pub enum FramingErrorView {
    UnexpectedEof,
    Other(Seq<char>),
}

impl View for FramingError {
    type V = FramingErrorView;

    open spec fn view(&self) -> FramingErrorView {
        match self {
            FramingError::UnexpectedEof => FramingErrorView::UnexpectedEof,
            FramingError::Other(message) => FramingErrorView::Other(message@),
        }
    }
}

/// A framing failure in words.
pub open spec fn framing_error_text(error: FramingErrorView) -> Seq<char> {
    match error {
        FramingErrorView::UnexpectedEof => "unexpected end of stream"@,
        FramingErrorView::Other(message) => message,
    }
}

impl FramingError {
    /// The failure in words.
    pub fn to_string(&self) -> (r: String)
        ensures
            r@ == framing_error_text(self@),
    {
        match self {
            FramingError::UnexpectedEof => "unexpected end of stream".to_owned(),
            FramingError::Other(message) => message.clone(),
        }
    }
}

/// A framing failure in words: its own, or that the stream ended.
pub proof fn law_framing_failures_are_told(message: Seq<char>)
    ensures
        framing_error_text(FramingErrorView::Other(message)) == message,
        framing_error_text(FramingErrorView::UnexpectedEof) == "unexpected end of stream"@,
{
}

/// The client wire that is spoken is version twenty.
pub proof fn law_the_wire_is_version_twenty()
    ensures
        PROTOCOL_VERSION == 20,
{
}

/// Messages are seen as what they hold.
pub proof fn law_what_is_seen_is_held(sent: ClientMessage, received: ServerMessage)
    ensures
        match sent {
            ClientMessage::Hello(hello) => sent@ == ClientMessageView::Hello(hello),
            ClientMessage::ObserveTerminal { target } => {
                &&& sent@ matches ClientMessageView::ObserveTerminal { target: seen }
                &&& seen == target@
            },
            ClientMessage::ControlTerminal { target, takeover } => {
                &&& sent@ matches ClientMessageView::ControlTerminal {
                    target: seen,
                    takeover: over,
                }
                &&& seen == target@
                &&& over == takeover
            },
            ClientMessage::Input { data } => {
                &&& sent@ matches ClientMessageView::Input { data: seen }
                &&& seen == data@
            },
            ClientMessage::Resize { cols, rows, cell_width_px, cell_height_px } => sent@ == (
            ClientMessageView::Resize { cols, rows, cell_width_px, cell_height_px }),
        },
        match received {
            ServerMessage::Welcome { version, encoding, error } => {
                &&& received@ matches ServerMessageView::Welcome {
                    version: seen,
                    encoding: rendered,
                    error: told,
                }
                &&& seen == version
                &&& rendered == encoding
                &&& told == text_or_none(error)
            },
            ServerMessage::Frame(frame) => received@ == ServerMessageView::Frame(frame),
            ServerMessage::ServerShutdown { reason } => received@ is ServerShutdown,
            ServerMessage::Other => received@ is Other,
        },
{
}

} // verus!
