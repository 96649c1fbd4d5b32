use herdr_federation::api::{Method, PaneSplitParams, Params, TabCreateParams};
use herdr_federation::ingest::{foreign_rows, ForeignRows};
use herdr_federation::origin::{ConnectionTarget, Origin, OriginKey};
use herdr_federation::path::UnixPath;
use herdr_federation::runtime_mutations::{
    App, AppState, RuntimeAction, FOREIGN_ACTION_TIMEOUT_SECS,
};
use herdr_federation::snapshot::RemoteSnapshot;
use herdr_federation::terminal::AgentTable;

fn foreign() -> ForeignRows {
    let body = r#"{"result":{"snapshot":{"agents":[
        {"pane_id":"w1:p1","tab_id":"w1:t1","workspace_id":"w1","terminal_id":"term_1"},
        {"pane_id":"w1:p2","tab_id":"w1:t1","workspace_id":"w1","terminal_id":"term_2"}
    ]}}}"#;
    let origin = Origin::new(
        OriginKey::new("n1").unwrap(),
        "mini",
        ConnectionTarget::LocalSocket(UnixPath::from_string("/tmp/1.sock".to_string())),
    );
    let agents = AgentTable { rows: vec![] };
    foreign_rows(&origin, &RemoteSnapshot::from_api_response(body).unwrap(), &agents, 0)
}

/// A hub that shows one foreign workspace, whose focused pane is known to its
/// server by an id or is not.
fn app(enabled: bool, remote_pane: Option<&str>) -> App {
    let mut rows = foreign();
    rows.terminals[1].1.foreign_remote_pane_id = remote_pane.map(|id| id.to_string());
    App {
        state: AppState {
            federation_enabled: enabled,
            workspaces: rows.workspaces,
            active: Some(0),
            terminals: rows.terminals,
        },
        federation_socket_dir: Some(UnixPath::from_string("/run/fed".to_string())),
    }
}

fn tab(workspace_id: Option<&str>) -> TabCreateParams {
    TabCreateParams {
        workspace_id: workspace_id.map(|id| id.to_string()),
        cwd: Some("/x".to_string()),
        focus: true,
        label: None,
        env: vec![],
    }
}

fn split(workspace_id: Option<&str>, target_pane_id: Option<&str>) -> PaneSplitParams {
    PaneSplitParams {
        workspace_id: workspace_id.map(|id| id.to_string()),
        target_pane_id: target_pane_id.map(|id| id.to_string()),
        options: Params { json: "{\"ratio\":0.5}".to_string() },
    }
}

/// The origin and the method of a routed action.
fn routed(action: RuntimeAction) -> (String, Method) {
    match action {
        RuntimeAction::Route { origin_key, method, timeout_secs, socket_dir } => {
            assert_eq!(timeout_secs, FOREIGN_ACTION_TIMEOUT_SECS);
            assert_eq!(socket_dir.unwrap().as_str(), "/run/fed");
            (origin_key.to_string(), method)
        }
        other => panic!("expected a routed action, got {other:?}"),
    }
}

/// The request id and the method of a local action.
fn dispatched(action: RuntimeAction) -> (String, Method) {
    match action {
        RuntimeAction::Dispatch { id, method } => (id, method),
        other => panic!("expected a local action, got {other:?}"),
    }
}

#[test]
fn foreign_workspaces_are_closed_by_their_origin() {
    let (origin, method) =
        routed(app(true, None).runtime_workspace_close("req", "fed~n1~w1".to_string()));
    assert_eq!(origin, "n1");
    assert!(matches!(method, Method::WorkspaceClose(target) if target.workspace_id == "w1"));

    let (id, method) = dispatched(app(true, None).runtime_workspace_close("req", "w1".to_string()));
    assert_eq!(id, "req");
    assert!(matches!(method, Method::WorkspaceClose(target) if target.workspace_id == "w1"));
}

#[test]
fn foreign_tabs_are_made_by_their_origin() {
    for named in [None, Some("fed~n1~w1")] {
        let (origin, method) = routed(app(true, None).runtime_tab_create("req", tab(named)));
        assert_eq!(origin, "n1");
        match method {
            Method::TabCreate(params) => {
                assert_eq!(params.workspace_id.as_deref(), Some("w1"));
                assert_eq!(params.cwd.as_deref(), Some("/x"));
                assert!(params.focus);
            }
            other => panic!("unexpected {other:?}"),
        }
    }
    let (_, method) = dispatched(app(true, None).runtime_tab_create("req", tab(Some("w9"))));
    assert!(matches!(method, Method::TabCreate(p) if p.workspace_id.as_deref() == Some("w9")));
}

#[test]
fn foreign_panes_are_closed_under_their_remote_id() {
    let (origin, method) =
        routed(app(true, Some("w1:p2")).runtime_pane_close("req", "local".to_string()));
    assert_eq!(origin, "n1");
    assert!(matches!(method, Method::PaneClose(target) if target.pane_id == "w1:p2"));

    // Nothing happens where the remote id is not known.
    assert!(matches!(
        app(true, None).runtime_pane_close("req", "local".to_string()),
        RuntimeAction::Skip
    ));
}

#[test]
fn foreign_panes_are_split_by_their_origin() {
    let target = |action: RuntimeAction| match routed(action).1 {
        Method::PaneSplit(params) => {
            assert_eq!(params.workspace_id.as_deref(), Some("w1"));
            assert_eq!(params.options.json, "{\"ratio\":0.5}");
            params.target_pane_id
        }
        other => panic!("unexpected {other:?}"),
    };
    let known = app(true, Some("w1:p2"));
    assert_eq!(target(known.runtime_pane_split("req", split(None, None))).as_deref(), Some("w1:p2"));
    assert_eq!(
        target(known.runtime_pane_split("req", split(Some("fed~n1~w1"), Some("w1:p7")))).as_deref(),
        Some("w1:p7")
    );
    assert_eq!(target(app(true, None).runtime_pane_split("req", split(None, None))), None);
}

#[test]
fn a_local_pane_is_not_named_to_an_origin() {
    let mut hub = app(true, Some("w1:p2"));
    assert_eq!(hub.active_foreign_pane_id().as_deref(), Some("w1:p2"));
    hub.state.workspaces[0].id = "w1".to_string();
    assert_eq!(hub.active_foreign_pane_id(), None);
    match routed(hub.runtime_pane_split("req", split(Some("fed~n1~w1"), None))).1 {
        Method::PaneSplit(params) => {
            assert_eq!(params.workspace_id.as_deref(), Some("w1"));
            assert_eq!(params.target_pane_id, None);
        }
        other => panic!("unexpected {other:?}"),
    }
}

#[test]
fn without_federation_everything_is_local() {
    let hub = app(false, Some("w1:p2"));
    dispatched(hub.runtime_workspace_close("req", "fed~n1~w1".to_string()));
    dispatched(hub.runtime_tab_create("req", tab(None)));
    let (_, method) = dispatched(hub.runtime_pane_close("req", "local".to_string()));
    assert!(matches!(method, Method::PaneClose(target) if target.pane_id == "local"));
    dispatched(hub.runtime_pane_split("req", split(None, None)));
}

#[test]
fn targets_need_an_active_workspace() {
    let mut hub = app(true, Some("w1:p2"));
    let (key, raw) = hub.foreign_workspace_target(None).unwrap();
    assert_eq!((key.as_str(), raw.as_str()), ("n1", "w1"));
    assert_eq!(hub.active_foreign_pane_id().as_deref(), Some("w1:p2"));

    hub.state.active = None;
    assert!(hub.foreign_workspace_target(None).is_none());
    assert!(hub.active_foreign_pane_id().is_none());

    hub.state.active = Some(4);
    assert!(hub.foreign_workspace_target(None).is_none());
    assert!(hub.active_foreign_pane_id().is_none());

    hub.state.active = Some(0);
    hub.state.terminals.clear();
    assert!(hub.active_foreign_pane_id().is_none());
}

#[test]
fn other_mutations_are_carried_out_here() {
    let hub = app(true, Some("w1:p2"));
    let params = || Params { json: "{}".to_string() };
    assert!(matches!(
        dispatched(hub.runtime_workspace_focus("a", "w".to_string())),
        (id, Method::WorkspaceFocus(t)) if id == "a" && t.workspace_id == "w"
    ));
    assert!(matches!(
        dispatched(hub.runtime_tab_focus("a", "t".to_string())).1,
        Method::TabFocus(t) if t.tab_id == "t"
    ));
    assert!(matches!(
        dispatched(hub.runtime_tab_close("a", "t".to_string())).1,
        Method::TabClose(t) if t.tab_id == "t"
    ));
    assert!(matches!(
        dispatched(hub.runtime_pane_focus("a", "p".to_string())).1,
        Method::PaneFocus(t) if t.pane_id == "p"
    ));
    assert!(matches!(dispatched(hub.runtime_server_reload_config("a")).1, Method::ServerReloadConfig));
    assert!(matches!(dispatched(hub.runtime_workspace_create("a", params())).1, Method::WorkspaceCreate(_)));
    assert!(matches!(dispatched(hub.runtime_workspace_rename("a", params())).1, Method::WorkspaceRename(_)));
    assert!(matches!(dispatched(hub.runtime_workspace_move("a", params())).1, Method::WorkspaceMove(_)));
    assert!(matches!(
        dispatched(hub.runtime_workspace_move_block("a", params())).1,
        Method::WorkspaceMoveBlock(_)
    ));
    assert!(matches!(dispatched(hub.runtime_tab_rename("a", params())).1, Method::TabRename(_)));
    assert!(matches!(dispatched(hub.runtime_tab_move("a", params())).1, Method::TabMove(_)));
    assert!(matches!(dispatched(hub.runtime_pane_rename("a", params())).1, Method::PaneRename(_)));
    assert!(matches!(dispatched(hub.runtime_pane_input_set("a", params())).1, Method::PaneInputSet(_)));
    assert!(matches!(
        dispatched(hub.runtime_pane_focus_direction("a", params())).1,
        Method::PaneFocusDirection(_)
    ));
    assert!(matches!(dispatched(hub.runtime_pane_resize("a", params())).1, Method::PaneResize(_)));
    assert!(matches!(dispatched(hub.runtime_pane_swap("a", params())).1, Method::PaneSwap(_)));
    assert!(matches!(dispatched(hub.runtime_pane_zoom("a", params())).1, Method::PaneZoom(_)));
    assert!(matches!(
        dispatched(hub.runtime_layout_set_split_ratio("a", params())).1,
        Method::LayoutSetSplitRatio(_)
    ));
    assert!(matches!(dispatched(hub.runtime_worktree_open("a", params())).1, Method::WorktreeOpen(_)));
    assert!(matches!(
        hub.runtime_worktree_create_deferred("a", params()),
        RuntimeAction::DispatchDeferred { id, method: Method::WorktreeCreate(_) } if id == "a"
    ));
    assert!(matches!(
        hub.runtime_worktree_remove_deferred("a", params()),
        RuntimeAction::DispatchDeferred { method: Method::WorktreeRemove(_), .. }
    ));
}
