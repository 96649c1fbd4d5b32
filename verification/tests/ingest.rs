use std::collections::HashSet;

use herdr_federation::ingest::{agent_labels, foreign_rows, ForeignRows};
use herdr_federation::layout::first_pane_of;
use herdr_federation::namespace::{is_foreign, parse_foreign_terminal_id};
use herdr_federation::origin::{ConnectionTarget, Origin, OriginKey};
use herdr_federation::path::UnixPath;
use herdr_federation::snapshot::{IngestError, RemotePane, RemoteSnapshot};
use herdr_federation::terminal::{Agent, AgentState, AgentTable};

const SAMPLE: &str = r#"{"id":"federation:snapshot","result":{"type":"session_snapshot","snapshot":{
    "protocol":16,"version":"0.7.3",
    "agents":[
        {"agent":"AGENT","agent_status":"working","cwd":"/Users/trilliumsmith/code/firstmate","pane_id":"w1:p1","tab_id":"w1:t1","workspace_id":"w1","terminal_id":"term_18f2a3c1","focused":true},
        {"agent":"AGENT","agent_status":"idle","cwd":"/Users/trilliumsmith/code/firstmate","pane_id":"w1:p2","tab_id":"w1:t2","workspace_id":"w1","terminal_id":"term_18f2a3c2","focused":false}
    ]
}}}"#;

/// The one recognized agent, under its name in lower case.
fn agents() -> AgentTable {
    let label = format!("{:?}", Agent::Claude).to_lowercase();
    AgentTable { rows: vec![(label, Some(Agent::Claude))] }
}

/// A body with the label of the recognized agent in place of `AGENT`.
fn with_agent(body: &str) -> String {
    body.replace("AGENT", &agents().rows[0].0)
}

fn origin(key: &str, label: &str) -> Origin {
    Origin::new(
        OriginKey::new(key).expect("valid test origin key"),
        label,
        ConnectionTarget::LocalSocket(UnixPath::from_string("/tmp/test.sock".to_string())),
    )
}

fn map(body: &str, key: &str, label: &str) -> ForeignRows {
    let snap =
        RemoteSnapshot::from_api_response(&with_agent(body)).expect("snapshot should parse");
    foreign_rows(&origin(key, label), &snap, &agents(), 0)
}

fn terminal_states(rows: &ForeignRows) -> Vec<AgentState> {
    rows.terminals.iter().map(|(_, terminal)| terminal.state).collect()
}

#[test]
fn sample_agent_only_snapshot_maps_faithfully() {
    let rows = map(SAMPLE, "n1", "mini");

    // Two agents in one workspace across two tabs.
    assert_eq!(rows.terminals.len(), 2, "one terminal per remote agent pane");
    assert_eq!(rows.workspaces.len(), 1);
    assert_eq!(rows.workspaces[0].tabs.len(), 2, "two distinct tab ids");

    // Every terminal id is namespaced to this origin and round-trips.
    for (id, terminal) in &rows.terminals {
        assert_eq!(id, &terminal.id);
        assert!(id.as_str().starts_with("fed~n1~"), "{}", id.as_str());
        assert!(is_foreign(id));
        let (parsed_origin, _) = parse_foreign_terminal_id(id).expect("foreign id parses");
        assert_eq!(parsed_origin, OriginKey::new("n1").unwrap());
    }

    // Both statuses are present.
    let states = terminal_states(&rows);
    assert!(states.contains(&AgentState::Working));
    assert!(states.contains(&AgentState::Idle));

    // The agent is recognized; the directory is carried through untouched.
    for (_, terminal) in &rows.terminals {
        assert_eq!(terminal.detected_agent, Some(Agent::Claude));
        assert_eq!(
            terminal.cwd,
            UnixPath::from_string("/Users/trilliumsmith/code/firstmate".to_string())
        );
    }

    // No remote label in this capture: the origin label alone.
    assert_eq!(rows.workspaces[0].custom_name.as_deref(), Some("mini"));

    // Every pane in the tree points at a namespaced terminal that exists.
    let terminal_ids: HashSet<&str> = rows.terminals.iter().map(|(id, _)| id.as_str()).collect();
    for tab in &rows.workspaces[0].tabs {
        assert_eq!(tab.panes.len(), 1);
        for pane in tab.panes.values() {
            assert!(terminal_ids.contains(pane.attached_terminal_id.as_str()));
        }
    }
}

#[test]
fn full_snapshot_preserves_labels_names_and_dedups_agent_panes() {
    // p1 appears in both lists; the agent entry overlays a fresher status and a
    // display name.
    let body = r#"{"result":{"snapshot":{
        "protocol":16,"version":"0.7.3",
        "workspaces":[{"workspace_id":"w1","label":"repo","active_tab_id":"w1:t2"}],
        "tabs":[
            {"tab_id":"w1:t1","workspace_id":"w1","label":"main"},
            {"tab_id":"w1:t2","workspace_id":"w1","label":"side"}
        ],
        "panes":[
            {"pane_id":"w1:p1","tab_id":"w1:t1","workspace_id":"w1","terminal_id":"term_a","agent":"AGENT","agent_status":"blocked","cwd":"/x","label":"pane-label"},
            {"pane_id":"w1:p2","tab_id":"w1:t2","workspace_id":"w1","terminal_id":"term_b","agent_status":"idle","cwd":"/y"}
        ],
        "agents":[
            {"pane_id":"w1:p1","tab_id":"w1:t1","workspace_id":"w1","terminal_id":"term_a","agent":"AGENT","agent_status":"working","name":"my-agent","cwd":"/x"}
        ]
    }}}"#;
    let rows = map(body, "n7", "mini2");

    assert_eq!(rows.terminals.len(), 2);
    assert_eq!(rows.workspaces.len(), 1);

    let ws = &rows.workspaces[0];
    assert_eq!(ws.tabs.len(), 2);
    assert_eq!(ws.custom_name.as_deref(), Some("mini2/repo"));
    assert_eq!(ws.id, "fed~n7~w1");
    assert_eq!(ws.active_tab, 1);

    let term_a = rows
        .terminals
        .iter()
        .find(|(id, _)| id.as_str() == "fed~n7~term_a")
        .map(|(_, terminal)| terminal)
        .expect("term_a present");
    assert_eq!(term_a.state, AgentState::Working);
    assert_eq!(term_a.detected_agent, Some(Agent::Claude));
    assert_eq!(term_a.agent_name.as_deref(), Some("my-agent"));
    assert_eq!(term_a.manual_label.as_deref(), Some("my-agent"));

    let term_b = rows
        .terminals
        .iter()
        .find(|(id, _)| id.as_str() == "fed~n7~term_b")
        .map(|(_, terminal)| terminal)
        .expect("term_b present");
    assert_eq!(term_b.state, AgentState::Idle);
    assert_eq!(term_b.detected_agent, None);
}

#[test]
fn tolerates_unknown_fields_and_protocol_drift() {
    let body = r#"{"result":{"snapshot":{
        "protocol":999,"version":"9.9.9","future_top_level":{"nested":[1,2,3]},
        "agents":[
            {"pane_id":"w1:p1","tab_id":"w1:t1","workspace_id":"w1","terminal_id":"term_z","agent_status":"surprising_new_status","brand_new_field":true}
        ]
    }}}"#;
    let snap = RemoteSnapshot::from_api_response(body).expect("drifted snapshot parses");
    assert_eq!(snap.protocol, 999);
    assert_eq!(snap.version, "9.9.9");

    let rows = foreign_rows(&origin("n1", "mini"), &snap, &agents(), 0);
    assert_eq!(rows.terminals.len(), 1);
    assert_eq!(rows.terminals[0].1.state, AgentState::Unknown);
}

#[test]
fn missing_snapshot_is_distinct_error() {
    assert!(matches!(
        RemoteSnapshot::from_api_response(r#"{"result":{}}"#),
        Err(IngestError::MissingSnapshot)
    ));
    assert!(matches!(
        RemoteSnapshot::from_api_response(r#"{"unexpected":1}"#),
        Err(IngestError::MissingSnapshot)
    ));
    assert!(matches!(
        RemoteSnapshot::from_api_response("not json at all"),
        Err(IngestError::Deserialize(_))
    ));
}

#[test]
fn pane_missing_terminal_id_is_skipped_not_panicked() {
    let body = r#"{"result":{"snapshot":{"agents":[
        {"pane_id":"w1:p1","tab_id":"w1:t1","workspace_id":"w1","terminal_id":"term_ok","agent_status":"working"},
        {"pane_id":"w1:p2","tab_id":"w1:t1","workspace_id":"w1","agent_status":"idle"}
    ]}}}"#;
    let rows = map(body, "n1", "mini");

    assert_eq!(rows.terminals.len(), 1, "pane without terminal_id skipped");
    assert_eq!(rows.terminals[0].0.as_str(), "fed~n1~term_ok");
    assert_eq!(rows.workspaces.len(), 1);
    assert_eq!(rows.workspaces[0].tabs.len(), 1);
    assert_eq!(rows.workspaces[0].tabs[0].panes.len(), 1);
}

#[test]
fn distinct_origins_produce_disjoint_namespaced_ids() {
    let body = r#"{"result":{"snapshot":{"agents":[
        {"pane_id":"w1:p1","tab_id":"w1:t1","workspace_id":"w1","terminal_id":"term_1","agent_status":"idle"}
    ]}}}"#;
    let snap = RemoteSnapshot::from_api_response(body).unwrap();

    let a = foreign_rows(&origin("nA", "box-a"), &snap, &agents(), 0);
    let b = foreign_rows(&origin("nB", "box-b"), &snap, &agents(), 1);

    let ids_a: HashSet<&str> = a.terminals.iter().map(|(id, _)| id.as_str()).collect();
    let ids_b: HashSet<&str> = b.terminals.iter().map(|(id, _)| id.as_str()).collect();
    assert!(
        ids_a.is_disjoint(&ids_b),
        "same raw id under two origins must not collide: {ids_a:?} vs {ids_b:?}"
    );
    assert_eq!(a.workspaces[0].id, "fed~nA~w1");
    assert_eq!(b.workspaces[0].id, "fed~nB~w1");
}

#[test]
fn multi_pane_tab_builds_one_pane_per_terminal() {
    let body = r#"{"result":{"snapshot":{"agents":[
        {"pane_id":"w1:p1","tab_id":"w1:t1","workspace_id":"w1","terminal_id":"term_1","agent_status":"working"},
        {"pane_id":"w1:p2","tab_id":"w1:t1","workspace_id":"w1","terminal_id":"term_2","agent_status":"idle"}
    ]}}}"#;
    let rows = map(body, "n1", "mini");

    assert_eq!(rows.terminals.len(), 2);
    let ws = &rows.workspaces[0];
    assert_eq!(ws.tabs.len(), 1);
    assert_eq!(ws.tabs[0].panes.len(), 2);
    assert_eq!(ws.public_pane_numbers.len(), 2);
    let numbers: HashSet<usize> = ws.public_pane_numbers.values().copied().collect();
    assert_eq!(numbers, HashSet::from([1, 2]));
    assert_eq!(ws.next_public_pane_number, 3);
    assert_eq!(ws.next_public_tab_number, 2);
}

#[test]
fn empty_snapshot_yields_no_rows() {
    let rows = map(r#"{"result":{"snapshot":{}}}"#, "n1", "mini");
    assert!(rows.terminals.is_empty());
    assert!(rows.workspaces.is_empty());
    assert!(ForeignRows::empty().workspaces.is_empty());
    assert!(ForeignRows::empty().terminals.is_empty());
}

#[test]
fn statuses_map_to_states() {
    let body = r#"{"result":{"snapshot":{"agents":[
        {"tab_id":"t","workspace_id":"w","terminal_id":"a","agent_status":"working"},
        {"tab_id":"t","workspace_id":"w","terminal_id":"b","agent_status":"done"},
        {"tab_id":"t","workspace_id":"w","terminal_id":"c","agent_status":"blocked"},
        {"tab_id":"t","workspace_id":"w","terminal_id":"d","agent_status":"Working"},
        {"tab_id":"t","workspace_id":"w","terminal_id":"e"}
    ]}}}"#;
    assert_eq!(
        terminal_states(&map(body, "n1", "mini")),
        vec![
            AgentState::Working,
            AgentState::Idle,
            AgentState::Blocked,
            AgentState::Unknown,
            AgentState::Unknown,
        ]
    );
}

#[test]
fn panes_without_an_id_are_never_united() {
    let body = r#"{"result":{"snapshot":{
        "panes":[{"tab_id":"t","workspace_id":"w","terminal_id":"a"}],
        "agents":[{"tab_id":"t","workspace_id":"w","terminal_id":"a"}]
    }}}"#;
    let rows = map(body, "n1", "mini");
    assert_eq!(rows.terminals.len(), 2);
    assert_eq!(rows.workspaces[0].tabs[0].panes.len(), 2);
}

#[test]
fn overlays_fill_gaps_and_agent_fields_win() {
    let body = r#"{"result":{"snapshot":{
        "panes":[{"pane_id":"p","agent":"other","agent_status":"idle","label":" shown "}],
        "agents":[
            {"pane_id":"p","tab_id":"t","workspace_id":"w","terminal_id":" raw ","agent":"AGENT","cwd":"/late","label":"ignored"},
            {"pane_id":"p","tab_id":"t2","workspace_id":"w2","terminal_id":"other","cwd":"/later"}
        ]
    }}}"#;
    let rows = map(body, "n1", "mini");
    assert_eq!(rows.terminals.len(), 1);
    let (id, terminal) = &rows.terminals[0];
    assert_eq!(id.as_str(), "fed~n1~raw");
    assert_eq!(terminal.detected_agent, Some(Agent::Claude));
    assert_eq!(terminal.state, AgentState::Idle);
    assert_eq!(terminal.cwd.as_str(), "/late");
    assert_eq!(terminal.manual_label.as_deref(), Some("shown"));
    assert_eq!(terminal.agent_name.as_deref(), Some("shown"));
    assert_eq!(terminal.foreign_remote_pane_id, None);
    assert_eq!(rows.workspaces[0].id, "fed~n1~w");
    assert_eq!(rows.workspaces[0].identity_cwd.as_str(), "/late");
}

#[test]
fn a_blank_name_gives_way_to_the_label() {
    let body = r#"{"result":{"snapshot":{"agents":[
        {"tab_id":"t","workspace_id":"w","terminal_id":"a","name":"  ","label":" shown "},
        {"tab_id":"t","workspace_id":"w","terminal_id":"b","name":"","label":"pane-label"},
        {"tab_id":"t","workspace_id":"w","terminal_id":"c","name":" ","label":" "}
    ]}}}"#;
    let rows = map(body, "n1", "mini");
    assert_eq!(rows.terminals[0].1.manual_label.as_deref(), Some("shown"));
    assert_eq!(rows.terminals[0].1.agent_name.as_deref(), Some("shown"));
    assert_eq!(rows.terminals[1].1.manual_label.as_deref(), Some("pane-label"));
    assert_eq!(rows.terminals[2].1.manual_label, None);
    assert_eq!(rows.terminals[2].1.agent_name, None);
}

#[test]
fn workspace_names_fall_back_to_the_raw_id() {
    let body = r#"{"result":{"snapshot":{
        "workspaces":[{"workspace_id":"w1","label":"  repo  ","active_tab_id":"gone"}],
        "agents":[
            {"tab_id":"t","workspace_id":"w1","terminal_id":"a"},
            {"tab_id":"t","workspace_id":"w2","terminal_id":"b"}
        ]
    }}}"#;
    let names = |label: &str| -> Vec<Option<String>> {
        map(body, "n1", label).workspaces.into_iter().map(|ws| ws.custom_name).collect()
    };
    assert_eq!(names(" "), vec![Some("w1/repo".to_string()), Some("w2".to_string())]);
    assert_eq!(names("box"), vec![Some("box/repo".to_string()), Some("box".to_string())]);
    assert_eq!(map(body, "n1", "box").workspaces[0].active_tab, 0);
}

#[test]
fn interleaved_panes_are_gathered_and_numbered() {
    let body = r#"{"result":{"snapshot":{"agents":[
        {"tab_id":"t1","workspace_id":"w1","terminal_id":"a"},
        {"tab_id":"t1","workspace_id":"w2","terminal_id":"b"},
        {"tab_id":"t2","workspace_id":"w1","terminal_id":"c"},
        {"tab_id":"t1","workspace_id":"w1","terminal_id":"d"}
    ]}}}"#;
    let snap = RemoteSnapshot::from_api_response(body).unwrap();
    let rows = foreign_rows(&origin("n1", "mini"), &snap, &agents(), 3);
    let start = first_pane_of(3);

    assert_eq!(rows.workspaces.len(), 2);
    let first = &rows.workspaces[0];
    assert_eq!(first.tabs.len(), 2);
    assert_eq!(first.tabs[0].number, 1);
    assert_eq!(first.tabs[1].number, 2);
    assert_eq!(first.tabs[0].root_pane, start);
    assert_eq!(first.tabs[0].layout.root(), start);
    assert_eq!(first.tabs[0].layout.focused(), start + 1);
    assert_eq!(first.tabs[0].panes[&start].attached_terminal_id.as_str(), "fed~n1~a");
    assert_eq!(first.tabs[0].panes[&(start + 1)].attached_terminal_id.as_str(), "fed~n1~d");
    assert_eq!(first.tabs[1].panes[&(start + 2)].attached_terminal_id.as_str(), "fed~n1~c");
    assert_eq!(first.public_pane_numbers[&start], 1);
    assert_eq!(first.public_pane_numbers[&(start + 1)], 2);
    assert_eq!(first.public_pane_numbers[&(start + 2)], 3);
    assert_eq!(first.focused_pane_id(), Some(start + 1));
    assert_eq!(first.terminal_id(start + 2).map(|id| id.as_str()), Some("fed~n1~c"));
    assert_eq!(first.terminal_id(start + 3).map(|id| id.as_str()), None);

    let second = &rows.workspaces[1];
    assert_eq!(second.tabs[0].root_pane, start + 3);
    assert_eq!(second.public_pane_numbers[&(start + 3)], 1);

    // The order of the rows is that of the snapshot.
    let ids: Vec<&str> = rows.terminals.iter().map(|(id, _)| id.as_str()).collect();
    assert_eq!(ids, vec!["fed~n1~a", "fed~n1~b", "fed~n1~c", "fed~n1~d"]);
    let panes: usize = rows.workspaces.iter().flat_map(|ws| &ws.tabs).map(|tab| tab.panes.len()).sum();
    assert_eq!(panes, rows.terminals.len());
}

#[test]
fn wrong_shapes_are_rejected() {
    for body in [
        r#"{"result":{"snapshot":7}}"#,
        r#"{"result":{"snapshot":{"protocol":-1}}}"#,
        r#"{"result":{"snapshot":{"protocol":4294967296}}}"#,
        r#"{"result":{"snapshot":{"protocol":1.5}}}"#,
        r#"{"result":{"snapshot":{"version":null}}}"#,
        r#"{"result":{"snapshot":{"agents":{}}}}"#,
        r#"{"result":{"snapshot":{"agents":[{"pane_id":3}]}}}"#,
        r#"{"result":{"snapshot":{"panes":[{"cwd":3}]}}}"#,
        r#"{"result":{"snapshot":{"workspaces":[[1]]}}}"#,
        r#"{"result":{"snapshot":null}}"#,
    ] {
        let error = RemoteSnapshot::from_api_response(body).unwrap_err();
        assert!(matches!(error, IngestError::Deserialize(_)), "{body}");
        assert!(error.to_string().starts_with("failed to decode remote snapshot: "), "{body}");
    }
}

#[test]
fn wrong_shapes_are_told_in_the_words_of_the_decoder() {
    for (snapshot, fault) in [
        ("7", "invalid type: integer `7`, expected struct RemoteSnapshot"),
        ("null", "invalid type: null, expected struct RemoteSnapshot"),
        ("true", "invalid type: boolean `true`, expected struct RemoteSnapshot"),
        (r#""a\"b""#, r#"invalid type: string "a\"b", expected struct RemoteSnapshot"#),
        (r#"{"protocol":-1}"#, "invalid value: integer `-1`, expected u32"),
        (r#"{"protocol":4294967296}"#, "invalid value: integer `4294967296`, expected u32"),
        (
            r#"{"protocol":18446744073709551615}"#,
            "invalid value: integer `18446744073709551615`, expected u32",
        ),
        (r#"{"protocol":1.5}"#, "invalid type: floating point `1.5`, expected u32"),
        (r#"{"protocol":"1"}"#, r#"invalid type: string "1", expected u32"#),
        (r#"{"version":null}"#, "invalid type: null, expected a string"),
        (r#"{"version":[1]}"#, "invalid type: sequence, expected a string"),
        (r#"{"agents":{}}"#, "invalid type: map, expected a sequence"),
        (r#"{"agents":[3]}"#, "invalid type: integer `3`, expected struct RemotePane"),
        (r#"{"panes":[{},{"cwd":false}]}"#, "invalid type: boolean `false`, expected a string"),
        (r#"{"tabs":["t"]}"#, r#"invalid type: string "t", expected struct RemoteTab"#),
        (r#"{"workspaces":[0.25]}"#, "invalid type: floating point `0.25`, expected struct RemoteWorkspace"),
        (r#"{"workspaces":[["a","b","c","d"]]}"#, "invalid length 4, expected fewer elements in array"),
        // Members are read by name, items by place, and the first fault counts.
        (r#"{"version":1,"protocol":null}"#, "invalid type: null, expected u32"),
        (r#"{"protocol":null,"agents":1}"#, "invalid type: integer `1`, expected a sequence"),
        (r#"[null,1,2]"#, "invalid type: null, expected u32"),
        (r#"[1,null,[],[],[],[],7,8]"#, "invalid type: null, expected a string"),
        (r#"[1,"v",[],[],[],[],7,8]"#, "invalid length 8, expected fewer elements in array"),
        (r#"{"panes":[{"pane_id":1,"agent":2}]}"#, "invalid type: integer `2`, expected a string"),
        (r#"{"panes":[[1,2]]}"#, "invalid type: integer `1`, expected a string"),
    ] {
        let body = format!("{{\"result\":{{\"snapshot\":{snapshot}}}}}");
        let error = RemoteSnapshot::from_api_response(&body).unwrap_err();
        assert_eq!(
            error.to_string(),
            format!("failed to decode remote snapshot: {fault}"),
            "{snapshot}"
        );
    }
}

#[test]
fn faults_are_those_of_serde_json() {
    let values = [
        serde_json::Value::Null,
        serde_json::Value::from(true),
        serde_json::Value::from(7),
        serde_json::Value::from(-7),
        serde_json::Value::from(u64::MAX),
        serde_json::Value::from(1e300),
        serde_json::Value::from(0.1),
        serde_json::Value::from("tab\t é"),
        serde_json::Value::Array(vec![]),
        serde_json::Value::Object(serde_json::Map::new()),
    ];
    for value in values {
        let of_field = |name: &str| {
            let mut members = serde_json::Map::new();
            members.insert(name.to_string(), value.clone());
            match RemoteSnapshot::from_value(&serde_json::Value::Object(members)) {
                Ok(_) => None,
                Err(error) => Some(error.to_string()),
            }
        };
        let said = |error: serde_json::Error| format!("failed to decode remote snapshot: {error}");
        let text = serde_json::from_value::<String>(value.clone()).err().map(said);
        let number = serde_json::from_value::<u32>(value.clone()).err().map(said);
        let list = serde_json::from_value::<Vec<serde_json::Value>>(value.clone()).err().map(said);
        assert_eq!(of_field("version"), text, "{value}");
        assert_eq!(of_field("protocol"), number, "{value}");
        assert_eq!(of_field("tabs"), list, "{value}");
    }
}

#[test]
fn shapes_at_the_edge_are_read() {
    let read = |body: &str| RemoteSnapshot::from_api_response(body).unwrap();
    assert_eq!(read(r#"{"result":{"snapshot":{"protocol":4294967295}}}"#).protocol, u32::MAX);
    // A null where an optional text may stand is its absence.
    let snap = read(r#"{"result":{"snapshot":{"panes":[{"cwd":null,"agent":null}]}}}"#);
    assert_eq!(snap.panes[0].cwd, None);
    // The fields of a record may also stand in a list, in order.
    let snap = read(r#"{"result":{"snapshot":[7,"v",[["w","l"]]]}}"#);
    assert_eq!(snap.protocol, 7);
    assert_eq!(snap.version, "v");
    assert_eq!(snap.workspaces[0].workspace_id, "w");
    assert_eq!(snap.workspaces[0].label, "l");
    assert_eq!(snap.workspaces[0].active_tab_id, "");
    assert!(snap.panes.is_empty());
}

#[test]
fn ingest_errors_in_words() {
    assert_eq!(
        RemoteSnapshot::from_api_response("{}").unwrap_err().to_string(),
        "remote API response had no result.snapshot object"
    );
    let parser_message = serde_json::from_str::<serde_json::Value>("{").unwrap_err().to_string();
    assert_eq!(
        RemoteSnapshot::from_api_response("{").unwrap_err().to_string(),
        format!("failed to decode remote snapshot: {parser_message}")
    );
}

#[test]
fn default_snapshot_is_empty() {
    let snap = RemoteSnapshot::default();
    assert_eq!(snap.protocol, 0);
    assert_eq!(snap.version, "");
    assert!(foreign_rows(&origin("n1", "mini"), &snap, &agents(), 0).terminals.is_empty());
}

#[test]
fn nothing_is_asked_of_remote_paths() {
    let body = r#"{"result":{"snapshot":{"agents":[
        {"tab_id":"t","workspace_id":"w","terminal_id":"a","cwd":"/repo"}
    ]}}}"#;
    let workspace = &map(body, "n1", "mini").workspaces[0];
    assert_eq!(workspace.identity_cwd.as_str(), "/repo");
    assert_eq!(workspace.cached_git_branch, None);
    assert_eq!(workspace.cached_git_ahead_behind, None);
    assert_eq!(workspace.cached_git_space, None);
    assert_eq!(workspace.worktree_space, None);
    assert!(workspace.metadata_tokens.is_empty());
    assert!(workspace.metadata_token_sequences.is_empty());
}

#[test]
fn the_parser_is_asked_about_the_labels_of_the_snapshot() {
    let body = r#"{"result":{"snapshot":{
        "panes":[{"pane_id":"p1","agent":"one"},{"pane_id":"p2"}],
        "agents":[{"pane_id":"p1","agent":"two"},{"pane_id":"p3","agent":"three"}]
    }}}"#;
    let snap = RemoteSnapshot::from_api_response(body).unwrap();
    assert_eq!(agent_labels(&snap), vec!["two", "three"]);
}

#[test]
fn display_names_treat_empty_texts_as_absent() {
    let shown = |name: Option<&str>, label: Option<&str>| {
        let pane = RemotePane {
            name: name.map(|text| text.to_string()),
            label: label.map(|text| text.to_string()),
            ..RemotePane::default()
        };
        pane.display_name().map(|text| text.to_string())
    };
    assert_eq!(shown(Some(""), Some("pane-label")).as_deref(), Some("pane-label"));
    assert_eq!(shown(Some(" \t"), Some(" pane-label ")).as_deref(), Some("pane-label"));
    assert_eq!(shown(Some(" agent "), Some("pane-label")).as_deref(), Some("agent"));
    assert_eq!(shown(None, Some("pane-label")).as_deref(), Some("pane-label"));
    assert_eq!(shown(Some(""), Some(" ")), None);
    assert_eq!(shown(Some(""), None), None);
    assert_eq!(shown(None, None), None);
}
