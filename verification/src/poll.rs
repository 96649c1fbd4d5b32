//! Polling the fleet: the snapshot of every origin, mapped and put together.
//!
//! Each origin is fetched and mapped on its own. An origin that cannot be
//! reached, or whose answer is no snapshot, is left out of the tick; it never
//! keeps the others from it.
use vstd::prelude::*;

use crate::api::{ApiCall, CallView, Method, MethodView, Request, RequestView};
use crate::ingest::{
    foreign_rows, no_rows, rows_of, terminal_rows, workspace_rows, ForeignRows, RowsView,
};
use crate::json::{
    json_document, json_text, json_tree, nested_within, same_but_floats, write_json, READABLE_DEPTH,
};
use crate::layout::{block_start, law_blocks_are_disjoint, PaneId};
use crate::origin::{origin_views, valid_key, Origin, OriginView};
use crate::projection::{
    has_pane, law_origins_never_collide, law_pane_ids_are_unique, law_workspace_ids_are_distinct,
};
use crate::snapshot::{
    ingest_error_text, law_floats_do_not_matter, outcomes_agree, response_outcome, IngestError,
    IngestErrorView, RemoteSnapshot, SnapshotView,
};
use crate::terminal::{AgentTable, AgentsView};

verus! {

/// Failure fetching or decoding a single origin's snapshot.
#[derive(Debug)]
pub enum PollError {
    /// The request failed, in words.
    Api(String),
    /// The answer was no snapshot.
    Ingest(IngestError),
    /// The answer could not be written down again, in words.
    Serialize(String),
}

/// A failure, as text.
pub enum PollErrorView {
    Api(Seq<char>),
    Ingest(IngestErrorView),
    Serialize(Seq<char>),
}

impl View for PollError {
    type V = PollErrorView;

    open spec fn view(&self) -> PollErrorView {
        match self {
            PollError::Api(error) => PollErrorView::Api(error@),
            PollError::Ingest(error) => PollErrorView::Ingest(error@),
            PollError::Serialize(error) => PollErrorView::Serialize(error@),
        }
    }
}

/// A failure in words.
pub open spec fn poll_error_text(error: PollErrorView) -> Seq<char> {
    match error {
        PollErrorView::Api(message) => "snapshot request failed: "@ + message,
        PollErrorView::Ingest(error) => "snapshot decode failed: "@ + ingest_error_text(error),
        PollErrorView::Serialize(message) => "snapshot re-serialize failed: "@ + message,
    }
}

impl PollError {
    /// The failure in words.
    pub fn to_string(&self) -> (r: String)
        ensures
            r@ == poll_error_text(self@),
    {
        match self {
            PollError::Api(error) => {
                let mut r = "snapshot request failed: ".to_owned();
                r.append(error.as_str());
                r
            },
            PollError::Ingest(error) => {
                let mut r = "snapshot decode failed: ".to_owned();
                r.append(error.to_string().as_str());
                r
            },
            PollError::Serialize(error) => {
                let mut r = "snapshot re-serialize failed: ".to_owned();
                r.append(error.as_str());
                r
            },
        }
    }
}

// ---------------------------------------------------------------------------
// One origin

/// The call that asks an origin for its snapshot.
pub open spec fn snapshot_call(origin: OriginView) -> CallView {
    CallView {
        socket: origin.socket,
        request: RequestView {
            id: "federation:snapshot:"@ + origin.key,
            method: MethodView::SessionSnapshot,
        },
    }
}

/// The call that asks an origin for its snapshot.
pub fn snapshot_request(origin: &Origin) -> (r: ApiCall)
    ensures
        r@ == snapshot_call(origin@),
{
    let mut id = "federation:snapshot:".to_owned();
    id.append(origin.key.as_str());
    ApiCall {
        socket: origin.target.socket_path().clone(),
        request: Request { id, method: Method::SessionSnapshot },
    }
}

/// Whether a body is that of an answer: its text, from which the answer is read,
/// or the failure of the call where there is none.
pub open spec fn bodies(
    r: Result<String, PollError>,
    reply: Result<serde_json::Value, String>,
) -> bool {
    match reply {
        Ok(value) => r matches Ok(body) && body@ == json_text(value) && (nested_within(
            json_tree(value),
            READABLE_DEPTH as nat,
        ) ==> (json_document(body@) matches Ok(read) && same_but_floats(
            read,
            json_tree(value),
            READABLE_DEPTH as nat,
        ))),
        Err(message) => r matches Err(error) && error@ == PollErrorView::Api(message@),
    }
}

/// The body of an answer.
pub fn snapshot_body(reply: Result<serde_json::Value, String>) -> (r: Result<String, PollError>)
    ensures
        bodies(r, reply),
{
    match reply {
        Ok(value) => match write_json(&value) {
            Ok(body) => Ok(body),
            Err(error) => Err(PollError::Serialize(error)),
        },
        Err(error) => Err(PollError::Api(error)),
    }
}

/// Asks an origin for its snapshot and returns the raw response body. `send`
/// makes one call on a JSON API socket.
pub fn fetch_snapshot_body<F>(origin: &Origin, send: F) -> (r: Result<String, PollError>) where
    F: FnOnce(ApiCall) -> Result<serde_json::Value, String>,

    requires
        forall|call: ApiCall| #[trigger] send.requires((call,)),
    ensures
        exists|call: ApiCall, reply: Result<serde_json::Value, String>| #[trigger]
            send.ensures((call,), reply) && call@ == snapshot_call(origin@) && bodies(r, reply),
{
    let call = snapshot_request(origin);
    snapshot_body(send(call))
}

/// The rows of an origin whose answer reads like this.
pub open spec fn rows_outcome(
    origin: OriginView,
    read: Result<SnapshotView, IngestErrorView>,
    agents: AgentsView,
    block: u64,
) -> Result<RowsView, PollErrorView> {
    match read {
        Ok(snapshot) => Ok(rows_of(origin, snapshot, agents, block)),
        Err(error) => Err(PollErrorView::Ingest(error)),
    }
}

/// A result, as text.
pub open spec fn rows_result(r: Result<ForeignRows, PollError>) -> Result<RowsView, PollErrorView> {
    match r {
        Ok(rows) => Ok(rows@),
        Err(error) => Err(error@),
    }
}

/// Decodes a raw API response body into origin-namespaced rows. `agents` says
/// what the hub's parser makes of the agent labels; the panes of the rows get ids
/// out of `block`.
pub fn map_snapshot_body(
    origin: &Origin,
    body: &str,
    agents: &AgentTable,
    block: u64,
) -> (r: Result<ForeignRows, PollError>)
    ensures
        rows_result(r) == rows_outcome(
            origin@,
            response_outcome(json_document(body@)),
            agents@,
            block,
        ),
{
    map_snapshot(origin, RemoteSnapshot::from_api_response(body), agents, block)
}

/// Whether a snapshot that was read is one that can be mapped.
pub open spec fn mappable(read: Result<RemoteSnapshot, IngestError>) -> bool {
    match read {
        Ok(snapshot) => snapshot@.numberable(),
        Err(_) => true,
    }
}

/// What was read, as text.
pub open spec fn read_view(read: Result<RemoteSnapshot, IngestError>) -> Result<
    SnapshotView,
    IngestErrorView,
> {
    match read {
        Ok(snapshot) => Ok(snapshot@),
        Err(error) => Err(error@),
    }
}

/// Maps what was read of an origin.
pub fn map_snapshot(
    origin: &Origin,
    read: Result<RemoteSnapshot, IngestError>,
    agents: &AgentTable,
    block: u64,
) -> (r: Result<ForeignRows, PollError>)
    requires
        mappable(read),
    ensures
        rows_result(r) == rows_outcome(origin@, read_view(read), agents@, block),
{
    match read {
        Ok(snapshot) => Ok(foreign_rows(origin, &snapshot, agents, block)),
        Err(error) => Err(PollError::Ingest(error)),
    }
}

// ---------------------------------------------------------------------------
// The fleet

/// Upper bound on the origins that are fetched at the same time.
pub const MAX_POLL_CONCURRENCY: usize = 8;

/// The batches in which so many origins are fetched: consecutive ranges, full
/// but for the last.
pub open spec fn batches(total: int) -> Seq<(int, int)>
    decreases total,
{
    if total <= 0 {
        Seq::empty()
    } else {
        let start = (total - 1) / (MAX_POLL_CONCURRENCY as int) * MAX_POLL_CONCURRENCY;
        batches(start).push((start, total))
    }
}

/// Each of a row of ranges.
pub open spec fn ranges(row: Seq<(usize, usize)>) -> Seq<(int, int)> {
    row.map_values(|range: (usize, usize)| (range.0 as int, range.1 as int))
}

/// The batches in which so many origins are fetched, each as its first origin
/// and the one after its last.
pub fn poll_batches(total: usize) -> (r: Vec<(usize, usize)>)
    ensures
        ranges(r@) == batches(total as int),
{
    let mut r: Vec<(usize, usize)> = Vec::new();
    let mut start: usize = 0;
    assert(ranges(r@) == batches(0));
    while total - start > MAX_POLL_CONCURRENCY
        invariant
            start <= total,
            start % MAX_POLL_CONCURRENCY == 0,
            ranges(r@) == batches(start as int),
        decreases total - start,
    {
        let ghost before = r@;
        let end: usize = start + MAX_POLL_CONCURRENCY;
        r.push((start, end));
        proof {
            assert(ranges(r@) == ranges(before).push((start as int, end as int)));
            assert((end - 1) / (MAX_POLL_CONCURRENCY as int) * MAX_POLL_CONCURRENCY == start);
        }
        start = end;
    }
    if start < total {
        let ghost before = r@;
        r.push((start, total));
        proof {
            assert(ranges(r@) == ranges(before).push((start as int, total as int)));
            assert((total - 1) / (MAX_POLL_CONCURRENCY as int) * MAX_POLL_CONCURRENCY == start);
        }
    }
    r
}

/// The batches take up every origin once, in order, and none is larger than the
/// bound.
pub proof fn law_batches_cover_the_fleet(total: int)
    requires
        total > 0,
    ensures
        batches(total).len() > 0,
        batches(total)[0].0 == 0,
        batches(total).last().1 == total,
        forall|i: int|
            0 <= i < batches(total).len() ==> 0 < (#[trigger] batches(total)[i]).1 - batches(
                total,
            )[i].0 <= MAX_POLL_CONCURRENCY,
        forall|i: int|
            0 < i < batches(total).len() ==> (#[trigger] batches(total)[i]).0 == batches(total)[i
                - 1].1,
    decreases total,
{
    let start = (total - 1) / (MAX_POLL_CONCURRENCY as int) * MAX_POLL_CONCURRENCY;
    let rest = batches(start);
    if start > 0 {
        law_batches_cover_the_fleet(start);
    }
    assert forall|i: int| 0 <= i < batches(total).len() implies 0 < (#[trigger] batches(
        total,
    )[i]).1 - batches(total)[i].0 <= MAX_POLL_CONCURRENCY by {
        if i < rest.len() {
            assert(batches(total)[i] == rest[i]);
        }
    }
    assert forall|i: int| 0 < i < batches(total).len() implies (#[trigger] batches(total)[i]).0
        == batches(total)[i - 1].1 by {
        assert(batches(total)[i - 1] == rest[i - 1]);
        if i < rest.len() {
            assert(batches(total)[i] == rest[i]);
        }
    }
}

/// What came of polling one origin.
#[derive(Debug)]
pub enum OriginOutcome {
    /// The origin was fetched and mapped, or was not.
    Polled(Result<ForeignRows, PollError>),
    /// The thread that polled it panicked.
    Panicked,
}

/// The rows that an outcome brings.
pub open spec fn rows_brought(outcome: OriginOutcome) -> RowsView {
    match outcome {
        OriginOutcome::Polled(Ok(rows)) => rows@,
        _ => no_rows(),
    }
}

/// Each of a row of outcomes.
pub open spec fn all_brought(outcomes: Seq<OriginOutcome>) -> Seq<RowsView> {
    outcomes.map_values(|outcome: OriginOutcome| rows_brought(outcome))
}

/// Rows put together in order.
pub open spec fn together(rows: Seq<RowsView>) -> RowsView
    decreases rows.len(),
{
    if rows.len() == 0 {
        no_rows()
    } else {
        let before = together(rows.drop_last());
        RowsView {
            workspaces: before.workspaces + rows.last().workspaces,
            terminals: before.terminals + rows.last().terminals,
        }
    }
}

/// Puts the rows of all origins together, in the order of the outcomes. What
/// failed is left out.
pub fn combine_rows(outcomes: Vec<OriginOutcome>) -> (r: ForeignRows)
    ensures
        r@ == together(all_brought(outcomes@)),
{
    let ghost all = all_brought(outcomes@);
    let mut rest = outcomes;
    let mut combined = ForeignRows::empty();
    let ghost mut done: int = 0;
    assert(all.take(0) == Seq::<RowsView>::empty());
    while rest.len() > 0
        invariant
            0 <= done <= all.len(),
            all_brought(rest@) == all.skip(done),
            combined@ == together(all.take(done)),
        decreases rest@.len(),
    {
        let ghost before = rest@;
        let ghost rows_before = combined@;
        assert(all_brought(before).len() == all.len() - done);
        assert(all_brought(before)[0] == all.skip(done)[0]);
        let outcome = rest.remove(0);
        let ghost brought = rows_brought(outcome);
        proof {
            assert(brought == all[done]);
            assert(rest@ == before.drop_first());
            assert(all_brought(rest@) == all_brought(before).drop_first());
            assert(all_brought(rest@) == all.skip(done + 1));
            assert(all.take(done + 1).drop_last() == all.take(done));
            assert(all.take(done + 1).last() == brought);
        }
        match outcome {
            OriginOutcome::Polled(Ok(rows)) => {
                append_rows(&mut combined, rows);
            },
            _ => {
                assert(rows_before.workspaces + no_rows().workspaces == rows_before.workspaces);
                assert(rows_before.terminals + no_rows().terminals == rows_before.terminals);
            },
        }
        proof {
            done = done + 1;
        }
    }
    assert(all.take(all.len() as int) == all);
    combined
}

/// Adds rows to rows.
fn append_rows(combined: &mut ForeignRows, rows: ForeignRows)
    ensures
        final(combined)@ == (RowsView {
            workspaces: old(combined)@.workspaces + rows@.workspaces,
            terminals: old(combined)@.terminals + rows@.terminals,
        }),
{
    let ghost before = *combined;
    let mut workspaces = rows.workspaces;
    let mut terminals = rows.terminals;
    combined.workspaces.append(&mut workspaces);
    combined.terminals.append(&mut terminals);
    proof {
        assert(workspace_rows(combined.workspaces@) == workspace_rows(before.workspaces@)
            + workspace_rows(rows.workspaces@));
        assert(terminal_rows(combined.terminals@) == terminal_rows(before.terminals@)
            + terminal_rows(rows.terminals@));
    }
}

/// What came of fetching one origin.
#[derive(Debug)]
pub enum FetchOutcome {
    /// The origin answered with a body, or did not.
    Fetched(Result<String, PollError>),
    /// The thread that fetched it panicked.
    Panicked,
}

/// What came of fetching one origin, as text.
pub enum FetchView {
    Body(Seq<char>),
    Failed(PollErrorView),
    Panicked,
}

impl View for FetchOutcome {
    type V = FetchView;

    open spec fn view(&self) -> FetchView {
        match self {
            FetchOutcome::Fetched(Ok(body)) => FetchView::Body(body@),
            FetchOutcome::Fetched(Err(error)) => FetchView::Failed(error@),
            FetchOutcome::Panicked => FetchView::Panicked,
        }
    }
}

/// Each of a row of fetches.
pub open spec fn fetch_views(fetched: Seq<FetchOutcome>) -> Seq<FetchView> {
    fetched.map_values(|outcome: FetchOutcome| outcome@)
}

/// What an answer holds: the snapshot in it, where it is one.
pub open spec fn snapshot_fetched(fetched: FetchView) -> Option<SnapshotView> {
    match fetched {
        FetchView::Body(body) => match response_outcome(json_document(body)) {
            Ok(snapshot) => Some(snapshot),
            Err(_) => None,
        },
        _ => None,
    }
}

/// The snapshots of a row of answers.
pub open spec fn snapshots_fetched(fetched: Seq<FetchView>) -> Seq<Option<SnapshotView>> {
    fetched.map_values(|outcome: FetchView| snapshot_fetched(outcome))
}

/// The rows of an origin, if its snapshot came.
pub open spec fn rows_if_any(
    origin: OriginView,
    snap: Option<SnapshotView>,
    agents: AgentsView,
    block: u64,
) -> RowsView {
    match snap {
        Some(snapshot) => rows_of(origin, snapshot, agents, block),
        None => no_rows(),
    }
}

/// The rows of each origin of a fleet. The panes of each get ids out of a block
/// of their own.
pub open spec fn fleet_rows(
    origins: Seq<OriginView>,
    snaps: Seq<Option<SnapshotView>>,
    agents: AgentsView,
    first_block: int,
) -> Seq<RowsView> {
    Seq::new(
        origins.len(),
        |i: int| rows_if_any(origins[i], snaps[i], agents, (first_block + i) as u64),
    )
}

/// What came of polling one origin, as text.
pub enum OutcomeView {
    Polled(Result<RowsView, PollErrorView>),
    Panicked,
}

impl View for OriginOutcome {
    type V = OutcomeView;

    open spec fn view(&self) -> OutcomeView {
        match self {
            OriginOutcome::Polled(polled) => OutcomeView::Polled(rows_result(*polled)),
            OriginOutcome::Panicked => OutcomeView::Panicked,
        }
    }
}

/// What comes of mapping what was fetched of an origin: its rows, the reason why
/// there are none, or the panic.
pub open spec fn origin_outcome(
    origin: OriginView,
    fetched: FetchView,
    agents: AgentsView,
    block: u64,
) -> OutcomeView {
    match fetched {
        FetchView::Body(body) => OutcomeView::Polled(
            rows_outcome(origin, response_outcome(json_document(body)), agents, block),
        ),
        FetchView::Failed(error) => OutcomeView::Polled(Err(error)),
        FetchView::Panicked => OutcomeView::Panicked,
    }
}

/// Maps what was fetched of an origin. A failure to fetch is kept.
pub fn map_fetched(
    origin: &Origin,
    fetched: FetchOutcome,
    agents: &AgentTable,
    block: u64,
) -> (r: OriginOutcome)
    ensures
        r@ == origin_outcome(origin@, fetched@, agents@, block),
        rows_brought(r) == rows_if_any(origin@, snapshot_fetched(fetched@), agents@, block),
{
    match fetched {
        FetchOutcome::Fetched(Ok(body)) => OriginOutcome::Polled(
            map_snapshot_body(origin, body.as_str(), agents, block),
        ),
        FetchOutcome::Fetched(Err(error)) => OriginOutcome::Polled(Err(error)),
        FetchOutcome::Panicked => OriginOutcome::Panicked,
    }
}

/// Maps what was fetched of every origin and returns the combined rows, in the
/// order of the origins. Unreachable or undecodable origins are skipped.
pub fn collect_foreign_rows(
    origins: &Vec<Origin>,
    fetched: Vec<FetchOutcome>,
    agents: &AgentTable,
    first_block: u64,
) -> (r: ForeignRows)
    requires
        fetched@.len() == origins@.len(),
        first_block + origins@.len() <= u64::MAX,
    ensures
        r@ == together(
            fleet_rows(
                origin_views(origins@),
                snapshots_fetched(fetch_views(fetched@)),
                agents@,
                first_block as int,
            ),
        ),
{
    let ghost row = origin_views(origins@);
    let ghost snaps = snapshots_fetched(fetch_views(fetched@));
    let ghost all = fleet_rows(row, snaps, agents@, first_block as int);
    let ghost came = fetched@;
    let mut rest = fetched;
    let mut outcomes: Vec<OriginOutcome> = Vec::new();
    let mut i: usize = 0;
    assert(rest@ == came.skip(0));
    while i < origins.len()
        invariant
            i <= origins@.len(),
            came.len() == origins@.len(),
            rest@ == came.skip(i as int),
            first_block + origins@.len() <= u64::MAX,
            row == origin_views(origins@),
            snaps == snapshots_fetched(fetch_views(came)),
            all == fleet_rows(row, snaps, agents@, first_block as int),
            all_brought(outcomes@) == all.take(i as int),
        decreases origins@.len() - i,
    {
        let ghost before = outcomes@;
        let one = rest.remove(0);
        assert(one == came[i as int]);
        assert(rest@ == came.skip(i + 1));
        let outcome = map_fetched(&origins[i], one, agents, first_block + i as u64);
        assert(fetch_views(came)[i as int] == came[i as int]@);
        outcomes.push(outcome);
        proof {
            assert(all_brought(outcomes@) == all_brought(before).push(rows_brought(outcome)));
            assert(all_brought(outcomes@) == all.take(i + 1));
        }
        i = i + 1;
    }
    assert(all_brought(outcomes@) == all);
    combine_rows(outcomes)
}

// ---------------------------------------------------------------------------
// What polling promises

/// The body of an answer holds the snapshot that the answer holds, where that can
/// be read at all: what is fetched is what the origin said.
pub proof fn law_a_body_holds_what_the_answer_holds(
    r: Result<String, PollError>,
    value: serde_json::Value,
)
    requires
        bodies(r, Ok(value)),
        nested_within(json_tree(value), READABLE_DEPTH as nat),
    ensures
        r is Ok,
        outcomes_agree(
            response_outcome(json_document(r->Ok_0@)),
            response_outcome(Ok(json_tree(value))),
        ),
{
    let read = json_document(r->Ok_0@)->Ok_0;
    law_floats_do_not_matter(read, json_tree(value), READABLE_DEPTH as nat);
}

/// An origin that fails changes nothing for the others: the rows are those of
/// the fleet without it.
pub proof fn law_failures_are_left_out(rows: Seq<RowsView>, i: int)
    requires
        0 <= i < rows.len(),
        rows[i] == no_rows(),
    ensures
        together(rows) == together(rows.remove(i)),
    decreases rows.len(),
{
    let less = rows.remove(i);
    let before = together(rows.drop_last());
    if i == rows.len() - 1 {
        assert(less == rows.drop_last());
        assert(before.workspaces + no_rows().workspaces == before.workspaces);
        assert(before.terminals + no_rows().terminals == before.terminals);
    } else {
        law_failures_are_left_out(rows.drop_last(), i);
        assert(less.drop_last() == rows.drop_last().remove(i));
        assert(less.last() == rows.last());
    }
}

/// Where the rows of one origin stand among the combined ones: after all those
/// of the origins before it, in one piece and unchanged.
pub proof fn law_order_is_kept(rows: Seq<RowsView>, i: int)
    requires
        0 <= i < rows.len(),
    ensures
        ({
            let all = together(rows);
            let before = together(rows.take(i));
            let mine = rows[i];
            &&& before.workspaces.len() + mine.workspaces.len() <= all.workspaces.len()
            &&& before.terminals.len() + mine.terminals.len() <= all.terminals.len()
            &&& all.workspaces.subrange(
                before.workspaces.len() as int,
                (before.workspaces.len() + mine.workspaces.len()) as int,
            ) == mine.workspaces
            &&& all.terminals.subrange(
                before.terminals.len() as int,
                (before.terminals.len() + mine.terminals.len()) as int,
            ) == mine.terminals
        }),
    decreases rows.len(),
{
    let all = together(rows);
    let mine = rows[i];
    let rest = rows.drop_last();
    let less = together(rest);
    if i == rows.len() - 1 {
        assert(rows.take(i) == rest);
        assert(all.workspaces.subrange(
            less.workspaces.len() as int,
            (less.workspaces.len() + mine.workspaces.len()) as int,
        ) == mine.workspaces);
        assert(all.terminals.subrange(
            less.terminals.len() as int,
            (less.terminals.len() + mine.terminals.len()) as int,
        ) == mine.terminals);
    } else {
        law_order_is_kept(rest, i);
        assert(rest.take(i) == rows.take(i));
        let before = together(rows.take(i));
        let w = before.workspaces.len() as int;
        let t = before.terminals.len() as int;
        assert(all.workspaces.subrange(w, w + mine.workspaces.len()) == less.workspaces.subrange(
            w,
            w + mine.workspaces.len(),
        ));
        assert(all.terminals.subrange(t, t + mine.terminals.len()) == less.terminals.subrange(
            t,
            t + mine.terminals.len(),
        ));
    }
}

/// The origin and the row that a combined workspace comes from.
proof fn lemma_workspace_source(rows: Seq<RowsView>, k: int) -> (r: (int, int))
    requires
        0 <= k < together(rows).workspaces.len(),
    ensures
        0 <= r.0 < rows.len(),
        0 <= r.1 < rows[r.0].workspaces.len(),
        together(rows).workspaces[k] == rows[r.0].workspaces[r.1],
        k == together(rows.take(r.0)).workspaces.len() + r.1,
    decreases rows.len(),
{
    let rest = rows.drop_last();
    let less = together(rest);
    if k < less.workspaces.len() {
        let (i, j) = lemma_workspace_source(rest, k);
        assert(rest.take(i) == rows.take(i));
        (i, j)
    } else {
        assert(rows.take(rows.len() - 1) == rest);
        (rows.len() - 1, k - less.workspaces.len())
    }
}

/// A fleet of different origins.
pub open spec fn distinct_origins(origins: Seq<OriginView>) -> bool {
    &&& forall|i: int| 0 <= i < origins.len() ==> valid_key((#[trigger] origins[i]).key)
    &&& forall|i: int, j: int|
        0 <= i < j < origins.len() ==> (#[trigger] origins[i]).key != (#[trigger] origins[j]).key
}

/// The combined rows never mix up workspaces: no two of them have one id, even
/// where the servers use the same raw ids.
pub proof fn law_combined_workspaces_are_distinct(
    origins: Seq<OriginView>,
    snaps: Seq<Option<SnapshotView>>,
    agents: AgentsView,
    first_block: int,
    a: int,
    b: int,
)
    requires
        distinct_origins(origins),
        snaps.len() == origins.len(),
        0 <= a < b < together(fleet_rows(origins, snaps, agents, first_block)).workspaces.len(),
    ensures
        together(fleet_rows(origins, snaps, agents, first_block)).workspaces[a].id != together(
            fleet_rows(origins, snaps, agents, first_block),
        ).workspaces[b].id,
{
    let rows = fleet_rows(origins, snaps, agents, first_block);
    let (i, m) = lemma_workspace_source(rows, a);
    let (j, n) = lemma_workspace_source(rows, b);
    let block_i = (first_block + i) as u64;
    let block_j = (first_block + j) as u64;
    assert(snaps[i] is Some);
    assert(snaps[j] is Some);
    let snap_i = snaps[i]->0;
    let snap_j = snaps[j]->0;
    if i == j {
        law_workspace_ids_are_distinct(origins[i], snap_i, agents, block_i);
    } else {
        if i < j {
            assert(origins[i].key != origins[j].key);
        } else {
            assert(origins[j].key != origins[i].key);
        }
        law_origins_never_collide(
            origins[i],
            snap_i,
            block_i,
            origins[j],
            snap_j,
            block_j,
            agents,
        );
    }
}

/// Terminals of different origins never share an id among the combined rows: if
/// two have one id, they are of one origin.
pub proof fn law_combined_terminals_keep_their_origin(
    origins: Seq<OriginView>,
    snaps: Seq<Option<SnapshotView>>,
    agents: AgentsView,
    first_block: int,
    i: int,
    m: int,
    j: int,
    n: int,
)
    requires
        distinct_origins(origins),
        snaps.len() == origins.len(),
        0 <= i < origins.len(),
        0 <= j < origins.len(),
        0 <= m < fleet_rows(origins, snaps, agents, first_block)[i].terminals.len(),
        0 <= n < fleet_rows(origins, snaps, agents, first_block)[j].terminals.len(),
        fleet_rows(origins, snaps, agents, first_block)[i].terminals[m].0 == fleet_rows(
            origins,
            snaps,
            agents,
            first_block,
        )[j].terminals[n].0,
    ensures
        i == j,
{
    let block_i = (first_block + i) as u64;
    let block_j = (first_block + j) as u64;
    if i != j {
        if i < j {
            assert(origins[i].key != origins[j].key);
        } else {
            assert(origins[j].key != origins[i].key);
        }
        assert(snaps[i] is Some);
        assert(snaps[j] is Some);
        law_origins_never_collide(
            origins[i],
            snaps[i]->0,
            block_i,
            origins[j],
            snaps[j]->0,
            block_j,
            agents,
        );
    }
}

/// A fetch asks the origin's own socket for a snapshot, and changes nothing there.
pub proof fn law_fetches_only_read(origin: OriginView)
    ensures
        snapshot_call(origin).socket == origin.socket,
        snapshot_call(origin).request.method is SessionSnapshot,
        snapshot_call(origin).request.id == "federation:snapshot:"@ + origin.key,
{
}

/// A failure in words ends with what it is about, word for word.
pub proof fn law_poll_failures_are_told_in_full(message: Seq<char>, error: IngestErrorView)
    ensures
        "snapshot request failed: "@.is_prefix_of(poll_error_text(PollErrorView::Api(message))),
        message.is_suffix_of(poll_error_text(PollErrorView::Api(message))),
        poll_error_text(PollErrorView::Api(message)).len() == 25 + message.len(),
        "snapshot decode failed: "@.is_prefix_of(poll_error_text(PollErrorView::Ingest(error))),
        ingest_error_text(error).is_suffix_of(poll_error_text(PollErrorView::Ingest(error))),
        poll_error_text(PollErrorView::Ingest(error)).len() == 24 + ingest_error_text(error).len(),
        "snapshot re-serialize failed: "@.is_prefix_of(
            poll_error_text(PollErrorView::Serialize(message)),
        ),
        message.is_suffix_of(poll_error_text(PollErrorView::Serialize(message))),
        poll_error_text(PollErrorView::Serialize(message)).len() == 30 + message.len(),
{
    reveal_strlit("snapshot request failed: ");
    reveal_strlit("snapshot decode failed: ");
    reveal_strlit("snapshot re-serialize failed: ");
}

/// Eight origins are fetched at a time: every batch but the last holds eight, the last
/// holds what is left, and no origins make no batch.
pub proof fn law_batches_are_full(total: int)
    ensures
        total <= 0 ==> batches(total).len() == 0,
        forall|i: int|
            0 <= i < batches(total).len() - 1 ==> (#[trigger] batches(total)[i]).1 - batches(
                total,
            )[i].0 == 8,
        total > 0 ==> 0 < batches(total).last().1 - batches(total).last().0 <= 8,
        total > 0 && total % 8 == 0 ==> batches(total).last().1 - batches(total).last().0 == 8,
    decreases total,
{
    if total > 0 {
        let start = (total - 1) / (MAX_POLL_CONCURRENCY as int) * MAX_POLL_CONCURRENCY;
        let rest = batches(start);
        assert(start % 8 == 0);
        if start > 0 {
            law_batches_are_full(start);
        }
        assert forall|i: int| 0 <= i < batches(total).len() - 1 implies (#[trigger] batches(
            total,
        )[i]).1 - batches(total)[i].0 == 8 by {
            assert(batches(total)[i] == rest[i]);
        }
    }
}

/// What is put together is what each brings, and nothing more: one origin more adds
/// its own rows behind those that are there.
pub proof fn law_nothing_is_added(rows: Seq<RowsView>, next: RowsView)
    ensures
        together(Seq::empty()).workspaces.len() == 0,
        together(Seq::empty()).terminals.len() == 0,
        together(rows.push(next)).workspaces == together(rows).workspaces + next.workspaces,
        together(rows.push(next)).terminals == together(rows).terminals + next.terminals,
{
    assert(rows.push(next).drop_last() == rows);
}

/// What is told of each origin: its rows where its answer is a snapshot, else why
/// there are none, as it came.
pub proof fn law_each_outcome_is_told(
    origin: OriginView,
    body: Seq<char>,
    error: PollErrorView,
    agents: AgentsView,
    block: u64,
)
    ensures
        response_outcome(json_document(body)) matches Ok(snapshot) ==> {
            &&& snapshot_fetched(FetchView::Body(body)) == Some(snapshot)
            &&& origin_outcome(origin, FetchView::Body(body), agents, block)
                == OutcomeView::Polled(Ok(rows_of(origin, snapshot, agents, block)))
        },
        response_outcome(json_document(body)) matches Err(fault) ==> {
            &&& snapshot_fetched(FetchView::Body(body)) is None
            &&& origin_outcome(origin, FetchView::Body(body), agents, block)
                == OutcomeView::Polled(Err(PollErrorView::Ingest(fault)))
        },
        origin_outcome(origin, FetchView::Failed(error), agents, block) == OutcomeView::Polled(
            Err(error),
        ),
        snapshot_fetched(FetchView::Failed(error)) is None,
        origin_outcome(origin, FetchView::Panicked, agents, block) is Panicked,
        snapshot_fetched(FetchView::Panicked) is None,
{
}

/// Each origin of a fleet shows its own snapshot, or nothing where it has none, with
/// pane ids out of a block of its own.
pub proof fn law_each_origin_shows_its_own_snapshot(
    origins: Seq<OriginView>,
    snaps: Seq<Option<SnapshotView>>,
    agents: AgentsView,
    first_block: int,
    i: int,
)
    requires
        0 <= i < origins.len(),
        snaps.len() == origins.len(),
        0 <= first_block,
        first_block + origins.len() <= u64::MAX,
    ensures
        fleet_rows(origins, snaps, agents, first_block).len() == origins.len(),
        snaps[i] matches Some(snapshot) ==> fleet_rows(origins, snaps, agents, first_block)[i]
            == rows_of(origins[i], snapshot, agents, (first_block + i) as u64),
        snaps[i] is None ==> {
            let mine = fleet_rows(origins, snaps, agents, first_block)[i];
            mine.workspaces.len() == 0 && mine.terminals.len() == 0
        },
{
}

/// No pane id is used twice in a fleet: panes of different origins have different ids.
pub proof fn law_panes_of_different_origins_differ(
    origins: Seq<OriginView>,
    snaps: Seq<Option<SnapshotView>>,
    agents: AgentsView,
    first_block: int,
    i: int,
    tab1: (int, int),
    j: int,
    tab2: (int, int),
    pane: PaneId,
)
    requires
        0 <= i < origins.len(),
        0 <= j < origins.len(),
        snaps.len() == origins.len(),
        forall|k: int| 0 <= k < snaps.len() ==> (#[trigger] snaps[k] matches Some(snapshot)
            ==> snapshot.numberable()),
        0 <= first_block,
        first_block + origins.len() <= u64::MAX,
        has_pane(fleet_rows(origins, snaps, agents, first_block)[i], tab1, pane),
        has_pane(fleet_rows(origins, snaps, agents, first_block)[j], tab2, pane),
    ensures
        i == j,
        tab1 == tab2,
{
    let block_i = (first_block + i) as u64;
    let block_j = (first_block + j) as u64;
    assert(snaps[i] is Some && snaps[i]->0.numberable());
    assert(snaps[j] is Some && snaps[j]->0.numberable());
    law_pane_ids_are_unique(origins[i], snaps[i]->0, agents, block_i, tab1, tab1, pane);
    law_pane_ids_are_unique(origins[j], snaps[j]->0, agents, block_j, tab2, tab2, pane);
    law_blocks_are_disjoint(
        block_i,
        block_j,
        pane - block_start(block_i),
        pane - block_start(block_j),
    );
    law_pane_ids_are_unique(origins[i], snaps[i]->0, agents, block_i, tab1, tab2, pane);
}

/// What was read, mapped and fetched is taken as it came, each in its place.
pub proof fn law_outcomes_are_taken_as_they_came(
    snapshot: RemoteSnapshot,
    fault: IngestError,
    rows: ForeignRows,
    error: PollError,
    fetched: Seq<FetchOutcome>,
    outcomes: Seq<OriginOutcome>,
    row: Seq<(usize, usize)>,
)
    ensures
        read_view(Ok(snapshot)) == Ok::<SnapshotView, IngestErrorView>(snapshot@),
        read_view(Err(fault)) == Err::<SnapshotView, IngestErrorView>(fault@),
        rows_result(Ok(rows)) == Ok::<RowsView, PollErrorView>(rows@),
        rows_result(Err(error)) == Err::<RowsView, PollErrorView>(error@),
        rows_brought(OriginOutcome::Polled(Ok(rows))) == rows@,
        rows_brought(OriginOutcome::Polled(Err(error))) == no_rows(),
        rows_brought(OriginOutcome::Panicked) == no_rows(),
        fetch_views(fetched).len() == fetched.len(),
        forall|i: int| 0 <= i < fetched.len() ==> #[trigger] fetch_views(fetched)[i] == fetched[i]@,
        all_brought(outcomes).len() == outcomes.len(),
        forall|i: int|
            0 <= i < outcomes.len() ==> #[trigger] all_brought(outcomes)[i]
                == rows_brought(outcomes[i]),
        ranges(row).len() == row.len(),
        forall|i: int|
            0 <= i < row.len() ==> #[trigger] ranges(row)[i] == (row[i].0 as int, row[i].1 as int),
{
}

/// A body is that of its answer, and where there is no answer the failure is told in its
/// words.
pub proof fn law_failed_fetches_tell_why(
    r: Result<String, PollError>,
    reply: Result<serde_json::Value, String>,
)
    requires
        bodies(r, reply),
    ensures
        r is Ok <==> reply is Ok,
        reply matches Ok(value) ==> r->Ok_0@ == json_text(value),
        reply matches Err(message) ==> (r matches Err(PollError::Api(told)) && told@ == message@),
{
}

/// Mapping the answers of a fleet shows every terminal of every snapshot that came, and
/// nothing of an origin that failed.
pub proof fn law_a_fleet_shows_what_came(
    origins: &Vec<Origin>,
    fetched: Vec<FetchOutcome>,
    agents: &AgentTable,
    first_block: u64,
    r: ForeignRows,
    i: int,
)
    requires
        call_ensures(collect_foreign_rows, (origins, fetched, agents, first_block), r),
        fetched@.len() == origins@.len(),
        first_block + origins@.len() <= u64::MAX,
        0 <= i < origins@.len(),
        fetched@[i] matches FetchOutcome::Fetched(Ok(body)) && response_outcome(
            json_document(body@),
        ) is Ok,
    ensures
        ({
            let body = fetched@[i]->Fetched_0->Ok_0@;
            let snapshot = response_outcome(json_document(body))->Ok_0;
            let mine = rows_of(origins@[i]@, snapshot, agents@, (first_block + i) as u64);
            &&& exists|at: int|
                0 <= at && at + mine.terminals.len() <= r.terminals@.len()
                    && #[trigger] r@.terminals.subrange(at, at + mine.terminals.len())
                    == mine.terminals
            &&& exists|at: int|
                0 <= at && at + mine.workspaces.len() <= r.workspaces@.len()
                    && #[trigger] r@.workspaces.subrange(at, at + mine.workspaces.len())
                    == mine.workspaces
        }),
{
    let views = fetch_views(fetched@);
    let snaps = snapshots_fetched(views);
    let row = origin_views(origins@);
    let all = fleet_rows(row, snaps, agents@, first_block as int);
    let body = fetched@[i]->Fetched_0->Ok_0@;
    let snapshot = response_outcome(json_document(body))->Ok_0;
    let mine = rows_of(origins@[i]@, snapshot, agents@, (first_block + i) as u64);
    assert(views[i] == fetched@[i]@);
    assert(snaps[i] == Some(snapshot));
    assert(all[i] == mine);
    law_order_is_kept(all, i);
    let before = together(all.take(i));
    let t = before.terminals.len() as int;
    let w = before.workspaces.len() as int;
    assert(r@.terminals.len() == r.terminals@.len());
    assert(r@.workspaces.len() == r.workspaces@.len());
    assert(r@.terminals.subrange(t, t + mine.terminals.len()) == mine.terminals);
    assert(r@.workspaces.subrange(w, w + mine.workspaces.len()) == mine.workspaces);
}

} // verus!
