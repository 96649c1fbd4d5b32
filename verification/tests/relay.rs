use herdr_federation::api::{ApiCall, Method, Params, TabCreateParams, WorkspaceTarget};
use herdr_federation::origin::{ConnectionTarget, Origin, OriginKey};
use herdr_federation::path::UnixPath;
use herdr_federation::relay::{
    call_action_on_foreign_with_response, route_action, route_report, send_action_to_foreign,
    send_input_to_foreign_pane, RelayError, RouteReport, RouteStep,
};

fn test_origin(key: &str) -> Origin {
    Origin::new(
        OriginKey::new(key).expect("valid test origin key"),
        key,
        ConnectionTarget::LocalSocket(UnixPath::from_string(format!("/nonexistent/{key}.sock"))),
    )
}

fn no_such_socket(call: ApiCall) -> Result<serde_json::Value, String> {
    Err(format!("{}: no such socket", call.socket.as_str()))
}

/// The text that a call types.
fn typed(call: &ApiCall) -> (String, String) {
    match &call.request.method {
        Method::PaneSendInput(params) => {
            assert!(params.keys.is_empty());
            (params.pane_id.clone(), params.text.clone())
        }
        other => panic!("expected input, got {other:?}"),
    }
}

#[test]
fn unreachable_remote_returns_api_error() {
    let origin = test_origin("nDOWN");
    let result = send_input_to_foreign_pane(&origin, "term_1", Some(b"test"), no_such_socket);
    assert!(result.is_err());
    match result {
        Err(RelayError::Api(_)) => (),
        _ => panic!("expected Api error for unreachable socket"),
    }
}

#[test]
fn relay_error_display() {
    let err = RelayError::Api("test".to_string());
    assert!(err.to_string().contains("relay request failed"));
}

#[test]
fn send_input_with_empty_bytes() {
    let origin = test_origin("nDOWN");
    let result = send_input_to_foreign_pane(&origin, "term_1", Some(b""), |call| {
        assert_eq!(typed(&call), ("term_1".to_string(), "".to_string()));
        no_such_socket(call)
    });
    assert!(result.is_err());
}

#[test]
fn send_input_with_none_bytes() {
    let origin = test_origin("nDOWN");
    let result = send_input_to_foreign_pane(&origin, "term_1", None, |call| {
        assert_eq!(typed(&call), ("term_1".to_string(), "".to_string()));
        no_such_socket(call)
    });
    assert!(result.is_err());
}

#[test]
fn send_input_constructs_pane_send_input_request() {
    let origin = test_origin("nTEST");
    let pane_id = "term_abc123";
    let text = b"test input";

    let result = send_input_to_foreign_pane(&origin, pane_id, Some(text), |call| {
        assert_eq!(call.request.id, "federation:relay:nTEST:term_abc123");
        assert_eq!(call.socket.as_str(), "/nonexistent/nTEST.sock");
        assert_eq!(typed(&call), (pane_id.to_string(), "test input".to_string()));
        no_such_socket(call)
    });

    assert!(result.is_err());
    match result {
        Err(RelayError::Api(_)) => (),
        _ => panic!("expected Api error for unreachable socket"),
    }
}

#[test]
fn send_input_with_utf8_text() {
    let origin = test_origin("nUTF8");
    let pane_id = "term_xyz";
    let text = "你好世界".as_bytes();

    let result = send_input_to_foreign_pane(&origin, pane_id, Some(text), |call| {
        assert_eq!(typed(&call).1, "你好世界");
        no_such_socket(call)
    });

    assert!(result.is_err());
    match result {
        Err(RelayError::Api(_)) => (),
        _ => panic!("expected Api error for unreachable socket"),
    }
}

#[test]
fn relay_error_implements_display() {
    let api_err = RelayError::Api("connection refused".to_string());
    let msg = api_err.to_string();
    assert!(msg.contains("relay request failed"));
}

#[test]
fn relay_errors_in_words() {
    assert_eq!(RelayError::Api("x".to_string()).to_string(), "relay request failed: x");
    assert_eq!(RelayError::Serialize("y".to_string()).to_string(), "relay serialize failed: y");
}

#[test]
fn action_relay_unreachable_remote_returns_api_error() {
    let origin = test_origin("nDOWN");
    let method = Method::TabCreate(TabCreateParams {
        workspace_id: Some("w1".to_string()),
        cwd: None,
        focus: true,
        label: None,
        env: Default::default(),
    });
    let result = send_action_to_foreign(&origin, &method, no_such_socket);
    assert!(result.is_err());
    match result {
        Err(RelayError::Api(_)) => (),
        _ => panic!("expected Api error for unreachable socket"),
    }
}

#[test]
fn bytes_that_are_no_text_are_replaced() {
    let origin = test_origin("nUP");
    let result = send_input_to_foreign_pane(&origin, "p", Some(b"a\xffb"), |call| {
        assert_eq!(typed(&call).1, "a\u{fffd}b");
        Ok(serde_json::Value::Null)
    });
    assert!(result.is_ok());
}

#[test]
fn actions_are_sent_as_they_are() {
    let origin = test_origin("nUP");
    let method = Method::TabCreate(TabCreateParams {
        workspace_id: Some("w1".to_string()),
        cwd: Some("/x".to_string()),
        focus: false,
        label: Some("l".to_string()),
        env: vec![("K".to_string(), "V".to_string())],
    });
    let result = send_action_to_foreign(&origin, &method, |call| {
        assert_eq!(call.request.id, "federation:action:nUP");
        assert_eq!(call.socket.as_str(), "/nonexistent/nUP.sock");
        match &call.request.method {
            Method::TabCreate(params) => {
                assert_eq!(params.workspace_id.as_deref(), Some("w1"));
                assert_eq!(params.cwd.as_deref(), Some("/x"));
                assert!(!params.focus);
                assert_eq!(params.label.as_deref(), Some("l"));
                assert_eq!(params.env, vec![("K".to_string(), "V".to_string())]);
            }
            other => panic!("unexpected {other:?}"),
        }
        Ok(serde_json::Value::Null)
    });
    assert!(result.is_ok());
}

#[test]
fn answers_are_handed_back() {
    let origin = test_origin("nUP");
    let method = Method::PaneZoom(Params { json: "{}".to_string() });
    let answer = call_action_on_foreign_with_response(&origin, &method, |call| {
        assert_eq!(call.request.id, "federation:action-resp:nUP");
        Ok(serde_json::Value::from(7))
    });
    assert_eq!(answer.unwrap(), serde_json::Value::from(7));
    assert!(matches!(
        call_action_on_foreign_with_response(&origin, &method, no_such_socket),
        Err(RelayError::Api(_))
    ));
}

#[test]
fn routed_actions_reach_their_origin_or_none() {
    let key = OriginKey::new("n2").unwrap();
    let method = Method::WorkspaceClose(WorkspaceTarget { workspace_id: "w1".to_string() });

    match route_action(&key, &method, Ok(vec![test_origin("n1"), test_origin("n2")])) {
        RouteStep::Call(call) => {
            assert_eq!(call.socket.as_str(), "/nonexistent/n2.sock");
            assert_eq!(call.request.id, "federation:action:n2");
            assert!(matches!(call.request.method, Method::WorkspaceClose(_)));
        }
        other => panic!("unexpected {other:?}"),
    }
    assert!(matches!(
        route_action(&key, &method, Ok(vec![test_origin("n1")])),
        RouteStep::Done(RouteReport::OriginNotFound)
    ));
    assert!(matches!(
        route_action(&key, &method, Err("no tailnet".to_string())),
        RouteStep::Done(RouteReport::DiscoveryFailed(error)) if error == "no tailnet"
    ));
}

#[test]
fn routed_actions_are_reported() {
    assert!(matches!(route_report(Ok(Ok(serde_json::Value::Null))), RouteReport::Routed));
    assert!(matches!(
        route_report(Ok(Err("down".to_string()))),
        RouteReport::Failed(RelayError::Api(error)) if error == "down"
    ));
    assert!(matches!(
        route_report(Err("panicked".to_string())),
        RouteReport::Panicked(error) if error == "panicked"
    ));
}
