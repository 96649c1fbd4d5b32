//! Whether a remote's protocol can carry a live view.
//!
//! A live view rides the client wire, whose version must be the same on both
//! sides. The status is what the hub shows in place of a foreign pane's grid.
use vstd::prelude::*;

use crate::protocol::PROTOCOL_VERSION;
use crate::text::{decimal, decimal_text};

verus! {

/// Whether a remote's reported protocol can attach a live view.
#[derive(Debug, Clone, Copy, PartialEq, Eq, Structural)]
pub enum LiveViewStatus {
    /// The remote reports the hub's protocol; a live view may attach.
    Attachable,
    /// The remote reports another protocol; a live view cannot attach.
    VersionMismatch { remote: u32, local: u32 },
    /// The remote did not report a protocol.
    UnknownRemoteProtocol,
}

/// The status of a remote that reports this protocol.
pub open spec fn status_of(remote_protocol: Option<u32>) -> LiveViewStatus {
    match remote_protocol {
        None => LiveViewStatus::UnknownRemoteProtocol,
        Some(remote) => if remote == PROTOCOL_VERSION {
            LiveViewStatus::Attachable
        } else {
            LiveViewStatus::VersionMismatch { remote, local: PROTOCOL_VERSION }
        },
    }
}

/// Classifies a remote's protocol against the hub's own.
pub fn live_view_status(remote_protocol: Option<u32>) -> (r: LiveViewStatus)
    ensures
        r == status_of(remote_protocol),
{
    match remote_protocol {
        Some(remote) => if remote == PROTOCOL_VERSION {
            LiveViewStatus::Attachable
        } else {
            LiveViewStatus::VersionMismatch { remote, local: PROTOCOL_VERSION }
        },
        None => LiveViewStatus::UnknownRemoteProtocol,
    }
}

/// A status in words.
pub open spec fn status_message(status: LiveViewStatus) -> Seq<char> {
    match status {
        LiveViewStatus::Attachable => "live view ready (protocol "@ + decimal(
            PROTOCOL_VERSION as nat,
        ) + ")"@,
        LiveViewStatus::VersionMismatch { remote, local } => {
            "live view unavailable: protocol mismatch (remote "@ + decimal(remote as nat)
                + " vs hub "@ + decimal(local as nat) + ")"@
        },
        LiveViewStatus::UnknownRemoteProtocol => {
            "live view unavailable: remote protocol unknown"@
        },
    }
}

impl LiveViewStatus {
    /// Short human-readable status.
    pub fn message(self) -> (r: String)
        ensures
            r@ == status_message(self),
    {
        match self {
            LiveViewStatus::Attachable => {
                let mut r = "live view ready (protocol ".to_owned();
                r.append(decimal_text(PROTOCOL_VERSION as u64).as_str());
                r.append(")");
                r
            },
            LiveViewStatus::VersionMismatch { remote, local } => {
                let mut r = "live view unavailable: protocol mismatch (remote ".to_owned();
                r.append(decimal_text(remote as u64).as_str());
                r.append(" vs hub ");
                r.append(decimal_text(local as u64).as_str());
                r.append(")");
                r
            },
            LiveViewStatus::UnknownRemoteProtocol => {
                "live view unavailable: remote protocol unknown".to_owned()
            },
        }
    }
}

/// A live view attaches exactly where both sides have one protocol, and a
/// mismatch names two that differ.
pub proof fn law_only_equal_protocols_attach(remote_protocol: Option<u32>)
    ensures
        status_of(remote_protocol) is Attachable <==> remote_protocol == Some(PROTOCOL_VERSION),
        status_of(remote_protocol) is UnknownRemoteProtocol <==> remote_protocol is None,
        status_of(remote_protocol) matches LiveViewStatus::VersionMismatch { remote, local }
            ==> remote != local && local == PROTOCOL_VERSION && remote_protocol == Some(remote),
{
}

/// A status in words says whether a live view is ready, and names the protocols that
/// it is about.
pub proof fn law_messages_name_the_protocols(remote: u32, local: u32)
    ensures
        status_message(LiveViewStatus::Attachable) == "live view ready (protocol "@ + decimal(
            PROTOCOL_VERSION as nat,
        ) + ")"@,
        status_message(LiveViewStatus::VersionMismatch { remote, local })
            == "live view unavailable: protocol mismatch (remote "@ + decimal(remote as nat)
            + " vs hub "@ + decimal(local as nat) + ")"@,
        status_message(LiveViewStatus::UnknownRemoteProtocol)
            == "live view unavailable: remote protocol unknown"@,
{
}

} // verus!
