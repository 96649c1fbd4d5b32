use herdr_federation::live_view::{live_view_status, LiveViewStatus};
use herdr_federation::protocol::PROTOCOL_VERSION;

#[test]
fn matching_protocol_is_attachable() {
    assert_eq!(
        live_view_status(Some(PROTOCOL_VERSION)),
        LiveViewStatus::Attachable
    );
}

#[test]
fn mismatched_protocol_reports_both_versions() {
    let remote = PROTOCOL_VERSION - 1;
    assert_eq!(
        live_view_status(Some(remote)),
        LiveViewStatus::VersionMismatch {
            remote,
            local: PROTOCOL_VERSION
        }
    );
}

#[test]
fn unknown_protocol_is_distinct_from_mismatch() {
    assert_eq!(
        live_view_status(None),
        LiveViewStatus::UnknownRemoteProtocol
    );
}

#[test]
fn messages_are_non_crash_and_include_versions() {
    let mismatch = live_view_status(Some(PROTOCOL_VERSION - 1));
    let message = mismatch.message();
    assert!(message.contains("protocol mismatch"), "{message}");
    assert!(message.contains(&PROTOCOL_VERSION.to_string()), "{message}");

    assert!(live_view_status(None).message().contains("unknown"));
}

#[test]
fn messages_are_exact() {
    assert_eq!(
        LiveViewStatus::Attachable.message(),
        format!("live view ready (protocol {PROTOCOL_VERSION})")
    );
    assert_eq!(
        LiveViewStatus::VersionMismatch { remote: 0, local: 4_294_967_295 }.message(),
        "live view unavailable: protocol mismatch (remote 0 vs hub 4294967295)"
    );
    assert_eq!(
        LiveViewStatus::UnknownRemoteProtocol.message(),
        "live view unavailable: remote protocol unknown"
    );
}
