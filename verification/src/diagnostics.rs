//! Diagnostics of the fleet: which origins answer, how fast, and what is wrong
//! with the others.
use vstd::prelude::*;

use crate::api::{ApiCall, CallView, Method, MethodView, Request, RequestView};
use crate::origin::{origin_views, Origin, OriginKey, OriginView};
use crate::seqs::lemma_filter_push;
use crate::text::{copy_option, decimal, decimal_text, text_or_none};

verus! {

/// Diagnostic result for a single origin.
#[derive(Debug)]
pub struct OriginDiagnostic {
    pub key: OriginKey,
    pub label: String,
    pub socket_path: String,
    pub reachable: bool,
    pub error: Option<String>,
    pub latency_ms: Option<u64>,
}

/// A result, as text.
pub struct DiagnosticView {
    pub key: Seq<char>,
    pub label: Seq<char>,
    pub socket_path: Seq<char>,
    pub reachable: bool,
    pub error: Option<Seq<char>>,
    pub latency_ms: Option<u64>,
}

impl View for OriginDiagnostic {
    type V = DiagnosticView;

    open spec fn view(&self) -> DiagnosticView {
        DiagnosticView {
            key: self.key@,
            label: self.label@,
            socket_path: self.socket_path@,
            reachable: self.reachable,
            error: text_or_none(self.error),
            latency_ms: self.latency_ms,
        }
    }
}

impl Clone for OriginDiagnostic {
    fn clone(&self) -> (r: Self)
        ensures
            r == *self,
    {
        OriginDiagnostic {
            key: self.key.clone(),
            label: self.label.clone(),
            socket_path: self.socket_path.clone(),
            reachable: self.reachable,
            error: copy_option(&self.error),
            latency_ms: self.latency_ms,
        }
    }
}

/// An origin that was not probed yet.
pub open spec fn unprobed(origin: OriginView) -> DiagnosticView {
    DiagnosticView {
        key: origin.key,
        label: origin.label,
        socket_path: origin.socket,
        reachable: false,
        error: None,
        latency_ms: None,
    }
}

impl OriginDiagnostic {
    pub fn new(origin: &Origin) -> (r: OriginDiagnostic)
        ensures
            r@ == unprobed(origin@),
    {
        OriginDiagnostic {
            key: origin.key.clone(),
            label: origin.label.clone(),
            socket_path: origin.target.socket_path().as_str().to_owned(),
            reachable: false,
            error: None,
            latency_ms: None,
        }
    }
}

/// What came of one call: the answer, or a failure in words, and the
/// milliseconds that it took.
#[derive(Debug)]
pub struct Probe {
    pub reply: Result<serde_json::Value, String>,
    pub elapsed_ms: u128,
}

/// The call that probes an origin.
pub open spec fn probe_call(origin: OriginView) -> CallView {
    CallView {
        socket: origin.socket,
        request: RequestView {
            id: "diagnostic:snapshot:"@ + origin.key,
            method: MethodView::SessionSnapshot,
        },
    }
}

/// The call that probes an origin.
pub fn probe_request(origin: &Origin) -> (r: ApiCall)
    ensures
        r@ == probe_call(origin@),
{
    let mut id = "diagnostic:snapshot:".to_owned();
    id.append(origin.key.as_str());
    ApiCall {
        socket: origin.target.socket_path().clone(),
        request: Request { id, method: Method::SessionSnapshot },
    }
}

/// What a probe says of an origin. The latency is kept in 64 bits.
pub open spec fn diagnosis(origin: OriginView, probe: Probe) -> DiagnosticView {
    DiagnosticView {
        key: origin.key,
        label: origin.label,
        socket_path: origin.socket,
        reachable: probe.reply is Ok,
        error: match probe.reply {
            Ok(_) => None,
            Err(message) => Some(message@),
        },
        latency_ms: Some(probe.elapsed_ms as u64),
    }
}

/// What a probe says of an origin.
pub fn diagnose(origin: &Origin, probe: Probe) -> (r: OriginDiagnostic)
    ensures
        r@ == diagnosis(origin@, probe),
{
    let mut result = OriginDiagnostic::new(origin);
    result.latency_ms = Some(#[verifier::truncate] (probe.elapsed_ms as u64));
    match probe.reply {
        Ok(_) => {
            result.reachable = true;
        },
        Err(error) => {
            result.reachable = false;
            result.error = Some(error);
        },
    }
    result
}

/// Runs diagnostics on a single origin. `probe` makes one call on a JSON API
/// socket and measures it.
pub fn diagnose_origin<F>(origin: &Origin, probe: &F) -> (r: OriginDiagnostic) where
    F: Fn(ApiCall) -> Probe,

    requires
        forall|call: ApiCall| #[trigger] probe.requires((call,)),
    ensures
        exists|call: ApiCall, outcome: Probe| #[trigger]
            probe.ensures((call,), outcome) && call@ == probe_call(origin@) && r@ == diagnosis(
                origin@,
                outcome,
            ),
{
    let call = probe_request(origin);
    let outcome = probe(call);
    diagnose(origin, outcome)
}

/// Summary of fleet health diagnostics.
#[derive(Debug, Clone)]
pub struct DiagnosticSummary {
    pub total_origins: usize,
    pub reachable: usize,
    pub unreachable: usize,
    pub origins: Vec<OriginDiagnostic>,
}

/// A summary, as text.
#[verifier::ext_equal]
pub struct SummaryView {
    pub total_origins: int,
    pub reachable: int,
    pub unreachable: int,
    pub origins: Seq<DiagnosticView>,
}

/// Each of a row of results.
pub open spec fn diagnostic_views(row: Seq<OriginDiagnostic>) -> Seq<DiagnosticView> {
    row.map_values(|diagnostic: OriginDiagnostic| diagnostic@)
}

impl View for DiagnosticSummary {
    type V = SummaryView;

    open spec fn view(&self) -> SummaryView {
        SummaryView {
            total_origins: self.total_origins as int,
            reachable: self.reachable as int,
            unreachable: self.unreachable as int,
            origins: diagnostic_views(self.origins@),
        }
    }
}

/// How many of a row of origins are reachable.
pub open spec fn reachable_in(row: Seq<DiagnosticView>) -> nat
    decreases row.len(),
{
    if row.len() == 0 {
        0
    } else {
        reachable_in(row.drop_last()) + if row.last().reachable {
            1nat
        } else {
            0nat
        }
    }
}

/// The summary of a row of results.
pub open spec fn summary_of(row: Seq<DiagnosticView>) -> SummaryView {
    SummaryView {
        total_origins: row.len() as int,
        reachable: reachable_in(row) as int,
        unreachable: row.len() - reachable_in(row),
        origins: row,
    }
}

/// Sums up a row of results.
pub fn summarize(diagnostics: Vec<OriginDiagnostic>) -> (r: DiagnosticSummary)
    ensures
        r@ == summary_of(diagnostic_views(diagnostics@)),
        r.origins == diagnostics,
{
    let ghost row = diagnostic_views(diagnostics@);
    let mut reachable: usize = 0;
    let mut i: usize = 0;
    while i < diagnostics.len()
        invariant
            i <= diagnostics@.len(),
            row == diagnostic_views(diagnostics@),
            reachable <= i,
            reachable == reachable_in(row.take(i as int)),
        decreases diagnostics@.len() - i,
    {
        proof {
            assert(row.take(i + 1).drop_last() == row.take(i as int));
            assert(row.take(i + 1).last() == diagnostics@[i as int]@);
        }
        if diagnostics[i].reachable {
            reachable = reachable + 1;
        }
        i = i + 1;
    }
    assert(row.take(i as int) == row);
    DiagnosticSummary {
        total_origins: diagnostics.len(),
        reachable,
        unreachable: diagnostics.len() - reachable,
        origins: diagnostics,
    }
}

/// Whether a row of results is that of probing a row of origins in turn.
pub open spec fn diagnoses<F: Fn(ApiCall) -> Probe>(
    row: Seq<DiagnosticView>,
    origins: Seq<OriginView>,
    probe: F,
) -> bool {
    &&& row.len() == origins.len()
    &&& forall|i: int|
        0 <= i < row.len() ==> diagnosed_by(#[trigger] row[i], origins[i], probe)
}

/// Whether a result is that of probing an origin.
pub open spec fn diagnosed_by<F: Fn(ApiCall) -> Probe>(
    diagnostic: DiagnosticView,
    origin: OriginView,
    probe: F,
) -> bool {
    exists|call: ApiCall, outcome: Probe| #[trigger]
        probe.ensures((call,), outcome) && call@ == probe_call(origin) && diagnostic == diagnosis(
            origin,
            outcome,
        )
}

/// Runs diagnostics on all origins and returns a summary.
pub fn diagnose_fleet<F>(origins: &Vec<Origin>, probe: &F) -> (r: DiagnosticSummary) where
    F: Fn(ApiCall) -> Probe,

    requires
        forall|call: ApiCall| #[trigger] probe.requires((call,)),
    ensures
        diagnoses(r@.origins, origin_views(origins@), *probe),
        r@ == summary_of(r@.origins),
{
    let ghost row = origin_views(origins@);
    let mut diagnostics: Vec<OriginDiagnostic> = Vec::new();
    let mut i: usize = 0;
    while i < origins.len()
        invariant
            forall|call: ApiCall| #[trigger] probe.requires((call,)),
            i <= origins@.len(),
            row == origin_views(origins@),
            diagnoses(diagnostic_views(diagnostics@), row.take(i as int), *probe),
        decreases origins@.len() - i,
    {
        let ghost before = diagnostic_views(diagnostics@);
        let diagnostic = diagnose_origin(&origins[i], probe);
        assert(diagnosed_by(diagnostic@, row[i as int], *probe));
        diagnostics.push(diagnostic);
        proof {
            let after = diagnostic_views(diagnostics@);
            assert(after == before.push(diagnostic@));
            assert forall|k: int| 0 <= k < after.len() implies diagnosed_by(
                #[trigger] after[k],
                row.take(i + 1)[k],
                *probe,
            ) by {
                if k < before.len() {
                    assert(after[k] == before[k]);
                    assert(row.take(i as int)[k] == row.take(i + 1)[k]);
                }
            }
        }
        i = i + 1;
    }
    assert(row.take(i as int) == row);
    summarize(diagnostics)
}

/// Every origin is counted once: as reachable or as unreachable.
pub proof fn law_summary_counts_add_up(row: Seq<DiagnosticView>)
    ensures
        summary_of(row).reachable + summary_of(row).unreachable == summary_of(row).total_origins,
        0 <= summary_of(row).reachable,
        0 <= summary_of(row).unreachable,
    decreases row.len(),
{
    if row.len() > 0 {
        law_summary_counts_add_up(row.drop_last());
    }
}

// ---------------------------------------------------------------------------
// The report

/// The head of a report.
pub open spec fn report_head(summary: SummaryView) -> Seq<char> {
    "Federation Diagnostic Report\n==========================\nTotal origins: "@ + decimal(
        summary.total_origins as nat,
    ) + "\nReachable: "@ + decimal(summary.reachable as nat) + "\nUnreachable: "@ + decimal(
        summary.unreachable as nat,
    ) + "\n\nOrigin Details:\n===============\n"@
}

/// What a report says of an origin's latency.
pub open spec fn latency_line(latency_ms: Option<u64>) -> Seq<char> {
    match latency_ms {
        Some(latency) => "  Latency: "@ + decimal(latency as nat) + "ms\n"@,
        None => Seq::empty(),
    }
}

/// What a report says of an origin's status, and of its error where it is not
/// reachable.
pub open spec fn status_lines(diagnostic: DiagnosticView) -> Seq<char> {
    if diagnostic.reachable {
        "  Status: ✓ REACHABLE\n"@
    } else {
        "  Status: ✗ UNREACHABLE\n"@ + match diagnostic.error {
            Some(error) => "  Error: "@ + error + "\n"@,
            None => Seq::empty(),
        }
    }
}

/// What a report says of an origin.
pub open spec fn report_entry(diagnostic: DiagnosticView) -> Seq<char> {
    "\n["@ + diagnostic.key + "] "@ + diagnostic.label + "\n  Socket: "@ + diagnostic.socket_path
        + "\n"@ + latency_line(diagnostic.latency_ms) + status_lines(diagnostic)
}

/// What a report says of a row of origins.
pub open spec fn report_entries(row: Seq<DiagnosticView>) -> Seq<char>
    decreases row.len(),
{
    if row.len() == 0 {
        Seq::empty()
    } else {
        report_entries(row.drop_last()) + report_entry(row.last())
    }
}

/// A report.
pub open spec fn report_of(summary: SummaryView) -> Seq<char> {
    report_head(summary) + report_entries(summary.origins)
}

impl DiagnosticSummary {
    /// Formats the summary as a human-readable text.
    pub fn format_report(&self) -> (r: String)
        ensures
            r@ == report_of(self@),
    {
        let mut report =
            "Federation Diagnostic Report\n==========================\nTotal origins: ".to_owned();
        report.append(decimal_text(self.total_origins as u64).as_str());
        report.append("\nReachable: ");
        report.append(decimal_text(self.reachable as u64).as_str());
        report.append("\nUnreachable: ");
        report.append(decimal_text(self.unreachable as u64).as_str());
        report.append("\n\nOrigin Details:\n===============\n");
        let ghost head = report@;
        let ghost row = diagnostic_views(self.origins@);
        let mut i: usize = 0;
        assert(head + report_entries(row.take(0)) == head);
        while i < self.origins.len()
            invariant
                i <= self.origins@.len(),
                row == diagnostic_views(self.origins@),
                report@ == head + report_entries(row.take(i as int)),
            decreases self.origins@.len() - i,
        {
            let ghost before = report_entries(row.take(i as int));
            let entry = self.origins[i].report();
            report.append(entry.as_str());
            proof {
                assert(row.take(i + 1).drop_last() == row.take(i as int));
                assert(row.take(i + 1).last() == self.origins@[i as int]@);
                assert((head + before) + entry@ == head + (before + entry@));
            }
            i = i + 1;
        }
        assert(row.take(i as int) == row);
        report
    }
}

impl OriginDiagnostic {
    /// What a report says of this origin.
    pub fn report(&self) -> (r: String)
        ensures
            r@ == report_entry(self@),
    {
        let mut r = "\n[".to_owned();
        r.append(self.key.as_str());
        r.append("] ");
        r.append(self.label.as_str());
        r.append("\n  Socket: ");
        r.append(self.socket_path.as_str());
        r.append("\n");
        let ghost start = r@;
        if let Some(latency) = self.latency_ms {
            r.append("  Latency: ");
            r.append(decimal_text(latency).as_str());
            r.append("ms\n");
        }
        let ghost middle = r@;
        assert(middle == start + latency_line(self.latency_ms));
        if self.reachable {
            r.append("  Status: ✓ REACHABLE\n");
        } else {
            r.append("  Status: ✗ UNREACHABLE\n");
            if let Some(error) = &self.error {
                r.append("  Error: ");
                r.append(error.as_str());
                r.append("\n");
            }
        }
        assert(r@ == middle + status_lines(self@));
        r
    }
}

// ---------------------------------------------------------------------------
// What diagnostics promise

/// The counts of a summary are those of its own rows: as many as there are, as many
/// as are reachable, and as many as are not.
pub proof fn law_summary_counts_its_rows(row: Seq<DiagnosticView>)
    ensures
        summary_of(row).origins == row,
        summary_of(row).total_origins == row.len(),
        summary_of(row).reachable == row.filter(|d: DiagnosticView| d.reachable).len(),
        summary_of(row).unreachable == row.filter(|d: DiagnosticView| !d.reachable).len(),
    decreases row.len(),
{
    let yes = |d: DiagnosticView| d.reachable;
    let no = |d: DiagnosticView| !d.reachable;
    if row.len() == 0 {
        reveal(Seq::filter);
    } else {
        let rest = row.drop_last();
        assert(row == rest.push(row.last()));
        law_summary_counts_its_rows(rest);
        lemma_filter_push(rest, row.last(), yes);
        lemma_filter_push(rest, row.last(), no);
    }
}

proof fn lemma_counts(row: Seq<OriginDiagnostic>)
    ensures
        reachable_in(diagnostic_views(row)) == row.filter(
            |d: OriginDiagnostic| d.reachable,
        ).len(),
        row.len() - reachable_in(diagnostic_views(row)) == row.filter(
            |d: OriginDiagnostic| !d.reachable,
        ).len(),
    decreases row.len(),
{
    let yes = |d: OriginDiagnostic| d.reachable;
    let no = |d: OriginDiagnostic| !d.reachable;
    if row.len() == 0 {
        reveal(Seq::filter);
    } else {
        let rest = row.drop_last();
        assert(row == rest.push(row.last()));
        assert(diagnostic_views(row).drop_last() == diagnostic_views(rest));
        lemma_counts(rest);
        lemma_filter_push(rest, row.last(), yes);
        lemma_filter_push(rest, row.last(), no);
    }
}

/// What is summed up stays as it is, and is counted: in all, as reachable and as
/// not.
pub proof fn law_summaries_count_what_they_hold(
    diagnostics: Vec<OriginDiagnostic>,
    r: DiagnosticSummary,
)
    requires
        call_ensures(summarize, (diagnostics,), r),
    ensures
        r.origins@ == diagnostics@,
        r.total_origins == diagnostics@.len(),
        r.reachable == diagnostics@.filter(|d: OriginDiagnostic| d.reachable).len(),
        r.unreachable == diagnostics@.filter(|d: OriginDiagnostic| !d.reachable).len(),
{
    lemma_counts(diagnostics@);
    assert(r@.reachable == r.reachable);
    assert(r@.unreachable == r.unreachable);
    assert(r@.total_origins == r.total_origins);
}

/// A diagnosis of an origin names it as it is, says that it is reachable just where
/// it answered, gives the error of the call where it did not, and says how long the
/// call took.
pub proof fn law_diagnoses_tell_the_probe(origin: OriginView, probe: Probe)
    ensures
        diagnosis(origin, probe).key == origin.key,
        diagnosis(origin, probe).label == origin.label,
        diagnosis(origin, probe).socket_path == origin.socket,
        diagnosis(origin, probe).reachable <==> probe.reply is Ok,
        diagnosis(origin, probe).error is None <==> probe.reply is Ok,
        probe.reply matches Err(message) ==> diagnosis(origin, probe).error == Some(message@),
        probe.elapsed_ms <= u64::MAX ==> (diagnosis(origin, probe).latency_ms matches Some(latency)
            && latency == probe.elapsed_ms),
{
}

/// An origin that was not probed yet is named as it is, and nothing else is said of
/// it.
pub proof fn law_unprobed_origins_claim_nothing(origin: OriginView)
    ensures
        unprobed(origin).key == origin.key,
        unprobed(origin).label == origin.label,
        unprobed(origin).socket_path == origin.socket,
        !unprobed(origin).reachable,
        unprobed(origin).error is None,
        unprobed(origin).latency_ms is None,
{
}

/// A probe asks the origin's own socket for a snapshot, and changes nothing there.
pub proof fn law_probes_only_read(origin: OriginView)
    ensures
        probe_call(origin).socket == origin.socket,
        probe_call(origin).request.method is SessionSnapshot,
        probe_call(origin).request.id == "diagnostic:snapshot:"@ + origin.key,
{
}

/// Every origin of a fleet is diagnosed, in order, each under its own name; the
/// latency of its call is told, an error just where it is not reachable, and the
/// counts are those of the rows.
pub proof fn law_every_origin_is_diagnosed<F>(
    origins: &Vec<Origin>,
    probe: &F,
    r: DiagnosticSummary,
) where F: Fn(ApiCall) -> Probe
    requires
        call_ensures(diagnose_fleet::<F>, (origins, probe), r),
    ensures
        r.total_origins == origins@.len(),
        r.origins@.len() == origins@.len(),
        r.reachable == r.origins@.filter(|d: OriginDiagnostic| d.reachable).len(),
        r.unreachable == r.origins@.filter(|d: OriginDiagnostic| !d.reachable).len(),
        forall|i: int|
            0 <= i < origins@.len() ==> {
                let told = #[trigger] r.origins@[i];
                let origin = origins@[i]@;
                &&& told.key@ == origin.key
                &&& told.label@ == origin.label
                &&& told.socket_path@ == origin.socket
                &&& told.latency_ms is Some
                &&& told.reachable <==> told.error is None
            },
{
    lemma_counts(r.origins@);
    let row = origin_views(origins@);
    assert(r@.total_origins == r.total_origins);
    assert(r@.reachable == r.reachable);
    assert(r@.unreachable == r.unreachable);
    assert(diagnoses(r@.origins, row, *probe));
    assert forall|i: int| 0 <= i < origins@.len() implies ({
        let told = #[trigger] r.origins@[i];
        let origin = origins@[i]@;
        &&& told.key@ == origin.key
        &&& told.label@ == origin.label
        &&& told.socket_path@ == origin.socket
        &&& told.latency_ms is Some
        &&& told.reachable <==> told.error is None
    }) by {
        assert(r@.origins[i] == r.origins@[i]@);
        assert(diagnosed_by(r@.origins[i], row[i], *probe));
    }
}

/// A report opens with the counts of its rows, and its rows follow.
pub proof fn law_reports_open_with_the_counts(row: Seq<DiagnosticView>)
    ensures
        ({
            let up = row.filter(|d: DiagnosticView| d.reachable).len();
            let down = row.filter(|d: DiagnosticView| !d.reachable).len();
            report_of(summary_of(row)) == (
            "Federation Diagnostic Report\n==========================\nTotal origins: "@ + decimal(
                row.len(),
            ) + "\nReachable: "@ + decimal(up) + "\nUnreachable: "@ + decimal(down)
                + "\n\nOrigin Details:\n===============\n"@) + report_entries(row)
        }),
{
    law_summary_counts_its_rows(row);
}

/// A report goes through its rows in order: the entries of two rows, one after the
/// other, are those of the whole; one row has one entry, and no row has none.
pub proof fn law_reports_go_through_their_rows(
    first: Seq<DiagnosticView>,
    second: Seq<DiagnosticView>,
    one: DiagnosticView,
)
    ensures
        report_entries(first + second) == report_entries(first) + report_entries(second),
        report_entries(seq![one]) == report_entry(one),
        report_entries(Seq::empty()).len() == 0,
    decreases second.len(),
{
    reveal_with_fuel(report_entries, 2);
    assert(seq![one].drop_last() == Seq::<DiagnosticView>::empty());
    assert(Seq::<char>::empty() + report_entry(one) == report_entry(one));
    if second.len() == 0 {
        assert(first + second == first);
        assert(report_entries(second) == Seq::<char>::empty());
        assert(report_entries(first) + report_entries(second) == report_entries(first));
    } else {
        assert((first + second).drop_last() == first + second.drop_last());
        law_reports_go_through_their_rows(first, second.drop_last(), one);
        assert((report_entries(first) + report_entries(second.drop_last())) + report_entry(
            second.last(),
        ) == report_entries(first) + (report_entries(second.drop_last()) + report_entry(
            second.last(),
        )));
    }
}

/// What an entry says: the key, the label and the socket first, the latency where it
/// is known, and at the end the status; where the origin is not reachable, with the
/// error, if there is one.
pub proof fn law_entries_tell_each_origin(row: DiagnosticView)
    ensures
        ({
            let entry = report_entry(row);
            let head = "\n["@ + row.key + "] "@ + row.label + "\n  Socket: "@ + row.socket_path
                + "\n"@;
            let latency = match row.latency_ms {
                Some(ms) => "  Latency: "@ + decimal(ms as nat) + "ms\n"@,
                None => ""@,
            };
            let up = "  Status: ✓ REACHABLE\n"@;
            let down = "  Status: ✗ UNREACHABLE\n"@;
            &&& row.reachable ==> entry == head + latency + up
            &&& !row.reachable && row.error is None ==> entry == head + latency + down
            &&& !row.reachable && row.error is Some ==> entry == head + latency + (down
                + "  Error: "@ + row.error->0 + "\n"@)
        }),
{
    reveal_strlit("");
    let down = "  Status: ✗ UNREACHABLE\n"@;
    assert(latency_line(None) == ""@);
    assert(down + Seq::<char>::empty() == down);
    if let Some(error) = row.error {
        assert(down + ("  Error: "@ + error + "\n"@) == down + "  Error: "@ + error + "\n"@);
    }
}

/// Diagnostics are seen as what is held, field by field.
pub proof fn law_what_is_seen_is_held(
    diagnostic: OriginDiagnostic,
    summary: DiagnosticSummary,
)
    ensures
        diagnostic@.key == diagnostic.key@,
        diagnostic@.label == diagnostic.label@,
        diagnostic@.socket_path == diagnostic.socket_path@,
        diagnostic@.reachable == diagnostic.reachable,
        diagnostic@.error == text_or_none(diagnostic.error),
        diagnostic@.latency_ms == diagnostic.latency_ms,
        summary@.total_origins == summary.total_origins as int,
        summary@.reachable == summary.reachable as int,
        summary@.unreachable == summary.unreachable as int,
        summary@.origins == diagnostic_views(summary.origins@),
{
}

} // verus!
