use herdr_federation::api::{ApiCall, Method};
use herdr_federation::diagnostics::{
    diagnose_fleet, diagnose_origin, DiagnosticSummary, OriginDiagnostic, Probe,
};
use herdr_federation::origin::{ConnectionTarget, Origin, OriginKey};
use herdr_federation::path::UnixPath;

fn origin(key: &str, label: &str, socket: &str) -> Origin {
    Origin::new(
        OriginKey::new(key).unwrap(),
        label,
        ConnectionTarget::LocalSocket(UnixPath::from_string(socket.to_string())),
    )
}

fn no_such_socket(call: ApiCall) -> Probe {
    Probe { reply: Err(format!("{}: no such socket", call.socket.as_str())), elapsed_ms: 3 }
}

#[test]
fn diagnostic_summary_counts_correctly() {
    let origins = vec![
        origin("origin1", "local1", "/tmp/test1.sock"),
        origin("origin2", "local2", "/tmp/test2.sock"),
    ];

    let summary = diagnose_fleet(&origins, &no_such_socket);

    assert_eq!(summary.total_origins, 2);
    assert_eq!(summary.unreachable, 2);
    assert_eq!(summary.reachable, 0);
}

#[test]
fn diagnostic_report_formats_correctly() {
    let mut diagnostic =
        OriginDiagnostic::new(&origin("test-origin", "test-label", "/tmp/test.sock"));

    diagnostic.reachable = true;
    diagnostic.latency_ms = Some(42);

    let summary = DiagnosticSummary {
        total_origins: 1,
        reachable: 1,
        unreachable: 0,
        origins: vec![diagnostic],
    };

    let report = summary.format_report();

    assert!(report.contains("Federation Diagnostic Report"));
    assert!(report.contains("Total origins: 1"));
    assert!(report.contains("Reachable: 1"));
    assert!(report.contains("test-origin"));
    assert!(report.contains("REACHABLE"));
    assert!(report.contains("42ms"));
}

#[test]
fn reports_are_exact() {
    let origins = vec![origin("n1", "up", "/tmp/1.sock"), origin("n2", "down", "/tmp/2.sock")];
    let summary = diagnose_fleet(&origins, &|call: ApiCall| {
        assert!(matches!(call.request.method, Method::SessionSnapshot));
        if call.request.id == "diagnostic:snapshot:n1" {
            Probe { reply: Ok(serde_json::Value::Null), elapsed_ms: 1234 }
        } else {
            assert_eq!(call.request.id, "diagnostic:snapshot:n2");
            Probe { reply: Err("refused".to_string()), elapsed_ms: 0 }
        }
    });
    assert_eq!((summary.total_origins, summary.reachable, summary.unreachable), (2, 1, 1));
    let expected = [
        "Federation Diagnostic Report",
        "==========================",
        "Total origins: 2",
        "Reachable: 1",
        "Unreachable: 1",
        "",
        "Origin Details:",
        "===============",
        "",
        "[n1] up",
        "  Socket: /tmp/1.sock",
        "  Latency: 1234ms",
        "  Status: ✓ REACHABLE",
        "",
        "[n2] down",
        "  Socket: /tmp/2.sock",
        "  Latency: 0ms",
        "  Status: ✗ UNREACHABLE",
        "  Error: refused",
        "",
    ]
    .join("\n");
    assert_eq!(summary.format_report(), expected);
}

#[test]
fn an_origin_that_was_not_probed_has_no_latency() {
    let diagnostic = OriginDiagnostic::new(&origin("n1", "box", "/tmp/1.sock"));
    assert_eq!(
        diagnostic.report(),
        "\n[n1] box\n  Socket: /tmp/1.sock\n  Status: ✗ UNREACHABLE\n"
    );
    assert_eq!(diagnostic.clone().socket_path, "/tmp/1.sock");
}

#[test]
fn a_single_origin_is_diagnosed() {
    let down = diagnose_origin(&origin("n1", "box", "/tmp/1.sock"), &no_such_socket);
    assert!(!down.reachable);
    assert_eq!(down.error.as_deref(), Some("/tmp/1.sock: no such socket"));
    assert_eq!(down.latency_ms, Some(3));

    let up = diagnose_origin(&origin("n1", "box", "/tmp/1.sock"), &|_: ApiCall| Probe {
        reply: Ok(serde_json::Value::Null),
        elapsed_ms: (1u128 << 64) + 5,
    });
    assert!(up.reachable);
    assert_eq!(up.error, None);
    assert_eq!(up.latency_ms, Some(5));
}
