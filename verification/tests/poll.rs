use std::collections::HashSet;

use herdr_federation::api::{ApiCall, Method};
use herdr_federation::namespace::is_foreign_workspace_id;
use herdr_federation::origin::{ConnectionTarget, Origin, OriginKey};
use herdr_federation::path::UnixPath;
use herdr_federation::poll::{
    collect_foreign_rows, combine_rows, fetch_snapshot_body, map_fetched, map_snapshot_body,
    poll_batches,
    snapshot_request, FetchOutcome, OriginOutcome, PollError, MAX_POLL_CONCURRENCY,
};
use herdr_federation::snapshot::IngestError;
use herdr_federation::terminal::{Agent, AgentTable};

const TEMPLATE: &str = r#"{"id":"federation:snapshot","result":{"type":"session_snapshot","snapshot":{
    "protocol":16,"version":"0.7.3",
    "agents":[
        {"agent":"AGENT","agent_status":"working","cwd":"/Users/trilliumsmith/code/firstmate","pane_id":"w1:p1","tab_id":"w1:t1","workspace_id":"w1","terminal_id":"term_18f2a3c1","focused":true},
        {"agent":"AGENT","agent_status":"idle","cwd":"/Users/trilliumsmith/code/firstmate","pane_id":"w1:p2","tab_id":"w1:t2","workspace_id":"w1","terminal_id":"term_18f2a3c2","focused":false}
    ]
}}}"#;

/// The one recognized agent, under its name in lower case.
fn agents() -> AgentTable {
    let label = format!("{:?}", Agent::Claude).to_lowercase();
    AgentTable { rows: vec![(label, Some(Agent::Claude))] }
}

/// A snapshot with two panes of the recognized agent.
fn sample() -> String {
    TEMPLATE.replace("AGENT", &agents().rows[0].0)
}

fn origin(key: &str) -> Origin {
    Origin::new(
        OriginKey::new(key).expect("valid test origin key"),
        key,
        ConnectionTarget::LocalSocket(UnixPath::from_string(format!("/nonexistent/{key}.sock"))),
    )
}

fn no_such_socket(call: ApiCall) -> Result<serde_json::Value, String> {
    Err(format!("{}: no such socket", call.socket.as_str()))
}

fn fetch_all<F>(origins: &[Origin], fetch: F) -> Vec<FetchOutcome>
where
    F: Fn(&Origin) -> Result<String, PollError>,
{
    origins.iter().map(|origin| FetchOutcome::Fetched(fetch(origin))).collect()
}

#[test]
fn unreachable_origins_yield_empty_rows_without_panic() {
    let origins = vec![origin("nDOWN1"), origin("nDOWN2")];
    let fetched = fetch_all(&origins, |origin| fetch_snapshot_body(origin, no_such_socket));
    let rows = collect_foreign_rows(&origins, fetched, &agents(), 0);
    assert!(rows.workspaces.is_empty(), "no workspaces from dead sockets");
    assert!(rows.terminals.is_empty(), "no terminals from dead sockets");
}

#[test]
fn no_origins_yields_empty_rows() {
    let rows = collect_foreign_rows(&vec![], vec![], &agents(), 0);
    assert!(rows.workspaces.is_empty());
    assert!(rows.terminals.is_empty());
}

#[test]
fn reachable_origin_maps_rows_and_unreachable_is_skipped() {
    let origins = vec![origin("nUP"), origin("nDOWN")];

    let fetched = fetch_all(&origins, |origin| {
        if origin.key == OriginKey::new("nUP").unwrap() {
            Ok(sample())
        } else {
            Err(PollError::Ingest(IngestError::MissingSnapshot))
        }
    });
    let rows = collect_foreign_rows(&origins, fetched, &agents(), 0);

    assert_eq!(rows.workspaces.len(), 1, "only the reachable origin's ws");
    assert_eq!(rows.terminals.len(), 2, "only the reachable origin's terms");
    assert!(is_foreign_workspace_id(&rows.workspaces[0].id));
    for (id, _) in &rows.terminals {
        assert!(id.as_str().starts_with("fed~nUP~"), "{}", id.as_str());
    }
}

#[test]
fn combined_rows_concatenate_across_origins_disjoint() {
    let origins = vec![origin("nA"), origin("nB")];
    let fetched = fetch_all(&origins, |_| Ok(sample()));
    let rows = collect_foreign_rows(&origins, fetched, &agents(), 0);

    assert_eq!(rows.workspaces.len(), 2, "one workspace per origin");
    assert_eq!(rows.terminals.len(), 4, "two terminals per origin");

    let ws_ids: HashSet<&str> = rows.workspaces.iter().map(|ws| ws.id.as_str()).collect();
    assert_eq!(ws_ids.len(), 2, "workspace ids are disjoint across origins");
    let term_ids: HashSet<&str> = rows.terminals.iter().map(|(id, _)| id.as_str()).collect();
    assert_eq!(term_ids.len(), 4, "terminal ids are disjoint across origins");
    let panes: HashSet<u128> =
        rows.workspaces.iter().flat_map(|ws| &ws.tabs).flat_map(|tab| tab.panes.keys().copied()).collect();
    assert_eq!(panes.len(), 4, "pane ids are disjoint across origins");
}

#[test]
fn combined_rows_preserve_origin_order_across_chunks() {
    let keys: Vec<String> = (0..10).map(|i| format!("n{i}")).collect();
    let origins: Vec<Origin> = keys.iter().map(|key| origin(key)).collect();
    let fetched = fetch_all(&origins, |_| Ok(sample()));
    let rows = collect_foreign_rows(&origins, fetched, &agents(), 0);

    assert_eq!(rows.workspaces.len(), keys.len(), "one workspace per origin");
    let observed: Vec<&str> = rows.workspaces.iter().map(|ws| ws.id.as_str()).collect();
    let expected: Vec<String> = keys.iter().map(|key| format!("fed~{key}~w1")).collect();
    assert_eq!(
        observed, expected,
        "combined workspaces stay in origin order across chunk boundaries"
    );
}

#[test]
fn a_panicked_fetch_is_skipped() {
    let origins = vec![origin("n1"), origin("n2"), origin("n3")];
    let fetched = vec![
        FetchOutcome::Panicked,
        FetchOutcome::Fetched(Ok(sample())),
        FetchOutcome::Fetched(Ok("no json".to_string())),
    ];
    let rows = collect_foreign_rows(&origins, fetched, &agents(), 5);
    assert_eq!(rows.workspaces.len(), 1);
    assert_eq!(rows.workspaces[0].id, "fed~n2~w1");
}

#[test]
fn outcomes_are_combined_in_order() {
    let mapped = |key: &str, block: u64| {
        OriginOutcome::Polled(map_snapshot_body(&origin(key), &sample(), &agents(), block))
    };
    let rows = combine_rows(vec![
        mapped("n2", 0),
        OriginOutcome::Panicked,
        OriginOutcome::Polled(Err(PollError::Api("down".to_string()))),
        mapped("n1", 1),
    ]);
    let ids: Vec<&str> = rows.workspaces.iter().map(|ws| ws.id.as_str()).collect();
    assert_eq!(ids, vec!["fed~n2~w1", "fed~n1~w1"]);
    assert_eq!(rows.terminals.len(), 4);
}

#[test]
fn batches_cover_the_fleet_in_order() {
    assert_eq!(poll_batches(0), vec![]);
    assert_eq!(poll_batches(1), vec![(0, 1)]);
    assert_eq!(poll_batches(8), vec![(0, 8)]);
    assert_eq!(poll_batches(9), vec![(0, 8), (8, 9)]);
    assert_eq!(poll_batches(24), vec![(0, 8), (8, 16), (16, 24)]);
    for total in 0..100 {
        let chunks: Vec<usize> =
            vec![0u8; total].chunks(MAX_POLL_CONCURRENCY).map(|chunk| chunk.len()).collect();
        let batches: Vec<usize> =
            poll_batches(total).into_iter().map(|(start, end)| end - start).collect();
        assert_eq!(batches, chunks);
    }
}

#[test]
fn the_snapshot_is_asked_for_on_the_origins_socket() {
    let call = snapshot_request(&origin("nUP"));
    assert_eq!(call.socket.as_str(), "/nonexistent/nUP.sock");
    assert_eq!(call.request.id, "federation:snapshot:nUP");
    assert!(matches!(call.request.method, Method::SessionSnapshot));
}

#[test]
fn a_fetched_body_reads_back_as_the_answer() {
    let answer: serde_json::Value = serde_json::from_str(&sample()).unwrap();
    let sent = answer.clone();
    let body = fetch_snapshot_body(&origin("nUP"), move |_| Ok(sent)).unwrap();
    assert_eq!(serde_json::from_str::<serde_json::Value>(&body).unwrap(), answer);
    let rows = map_snapshot_body(&origin("nUP"), &body, &agents(), 0).unwrap();
    assert_eq!(rows.terminals.len(), 2);
}

#[test]
fn poll_errors_in_words() {
    let failed = fetch_snapshot_body(&origin("nDOWN"), no_such_socket).unwrap_err();
    assert_eq!(
        failed.to_string(),
        "snapshot request failed: /nonexistent/nDOWN.sock: no such socket"
    );
    let undecodable = map_snapshot_body(&origin("nUP"), "{}", &agents(), 0).unwrap_err();
    assert_eq!(
        undecodable.to_string(),
        "snapshot decode failed: remote API response had no result.snapshot object"
    );
    assert_eq!(
        PollError::Serialize("why".to_string()).to_string(),
        "snapshot re-serialize failed: why"
    );
}

#[test]
fn a_failed_fetch_keeps_its_reason() {
    let map = |fetched| map_fetched(&origin("n1"), fetched, &agents(), 0);
    match map(FetchOutcome::Fetched(Err(PollError::Api("refused".to_string())))) {
        OriginOutcome::Polled(Err(error)) => {
            assert_eq!(error.to_string(), "snapshot request failed: refused");
        }
        other => panic!("unexpected {other:?}"),
    }
    assert!(matches!(map(FetchOutcome::Panicked), OriginOutcome::Panicked));
    assert!(matches!(
        map(FetchOutcome::Fetched(Ok("{}".to_string()))),
        OriginOutcome::Polled(Err(PollError::Ingest(IngestError::MissingSnapshot)))
    ));
    match map(FetchOutcome::Fetched(Ok(sample()))) {
        OriginOutcome::Polled(Ok(rows)) => assert_eq!(rows.terminals.len(), 2),
        other => panic!("unexpected {other:?}"),
    }
}
