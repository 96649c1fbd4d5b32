//! The pane universe of a snapshot.
//!
//! `panes` and `agents` both describe panes: a pane that bears an agent appears
//! in both, once plain and once with richer agent fields. The two are united by
//! public pane id, so that such a pane is described once.
use vstd::prelude::*;

use crate::seqs::{
    first_index, first_seen, lemma_filter_contains, lemma_filter_push, lemma_first_index,
    lemma_first_seen, lemma_first_seen_push, lemma_is_first_index, lemma_push_contains,
};
use crate::snapshot::{pane_views, RemotePane, RemotePaneView, RemoteSnapshot, SnapshotView};
use crate::text::{
    copy_option, law_trimming_drops_outer_space_only, text_or_none, trim, trimmed, white_space,
};

verus! {

/// A pane entry with a later entry for the same pane folded in: agent fields of
/// the later entry win, display and identity fields only fill gaps.
pub open spec fn overlaid(pane: RemotePaneView, other: RemotePaneView) -> RemotePaneView {
    RemotePaneView {
        pane_id: pane.pane_id,
        tab_id: if pane.tab_id.len() == 0 {
            other.tab_id
        } else {
            pane.tab_id
        },
        workspace_id: if pane.workspace_id.len() == 0 {
            other.workspace_id
        } else {
            pane.workspace_id
        },
        terminal_id: if pane.terminal_id.len() == 0 {
            other.terminal_id
        } else {
            pane.terminal_id
        },
        agent: if other.agent is Some {
            other.agent
        } else {
            pane.agent
        },
        agent_status: if other.agent_status.len() > 0 {
            other.agent_status
        } else {
            pane.agent_status
        },
        cwd: if pane.cwd is None {
            other.cwd
        } else {
            pane.cwd
        },
        label: if pane.label is None {
            other.label
        } else {
            pane.label
        },
        name: if other.name is Some {
            other.name
        } else {
            pane.name
        },
    }
}

/// An optional text, trimmed; none where nothing is left of it.
pub open spec fn shown_text(text: Option<Seq<char>>) -> Option<Seq<char>> {
    match text {
        Some(text) => if trimmed(text).len() > 0 {
            Some(trimmed(text))
        } else {
            None
        },
        None => None,
    }
}

/// The display name of a pane: its agent name, trimmed, unless that is empty or
/// absent, else its label, trimmed, unless that is empty or absent.
pub open spec fn display_name_of(pane: RemotePaneView) -> Option<Seq<char>> {
    match shown_text(pane.name) {
        Some(name) => Some(name),
        None => shown_text(pane.label),
    }
}

/// Trims an optional text, and drops it where nothing is left.
fn show_text(text: &Option<String>) -> (r: Option<&str>)
    ensures
        match shown_text(text_or_none(*text)) {
            Some(shown) => r matches Some(found) && found@ == shown,
            None => r is None,
        },
{
    match text {
        Some(text) => {
            let shown = trim(text.as_str());
            if shown.is_empty() {
                None
            } else {
                Some(shown)
            }
        },
        None => None,
    }
}

impl RemotePane {
    /// Display name for this pane: the agent `name` if present, else the pane
    /// `label`, trimmed. Empty texts are treated as absent.
    pub fn display_name(&self) -> (r: Option<&str>)
        ensures
            match display_name_of(self@) {
                Some(name) => r matches Some(found) && found@ == name,
                None => r is None,
            },
    {
        match show_text(&self.name) {
            Some(name) => Some(name),
            None => show_text(&self.label),
        }
    }

    /// Folds a later row describing the same pane into this one.
    pub fn overlay(&mut self, other: &RemotePane)
        ensures
            final(self)@ == overlaid(old(self)@, other@),
    {
        if other.agent.is_some() {
            self.agent = copy_option(&other.agent);
        }
        if !other.agent_status.as_str().is_empty() {
            self.agent_status = other.agent_status.clone();
        }
        if other.name.is_some() {
            self.name = copy_option(&other.name);
        }
        if self.label.is_none() {
            self.label = copy_option(&other.label);
        }
        if self.cwd.is_none() {
            self.cwd = copy_option(&other.cwd);
        }
        if self.terminal_id.as_str().is_empty() {
            self.terminal_id = other.terminal_id.clone();
        }
        if self.tab_id.as_str().is_empty() {
            self.tab_id = other.tab_id.clone();
        }
        if self.workspace_id.as_str().is_empty() {
            self.workspace_id = other.workspace_id.clone();
        }
    }
}

/// The public ids of a row of panes.
pub open spec fn pane_ids(panes: Seq<RemotePaneView>) -> Seq<Seq<char>> {
    panes.map_values(|pane: RemotePaneView| pane.pane_id)
}

/// One entry more: a pane that is already there is overlaid in its place, any
/// other is added. An entry without an id is always added.
pub open spec fn with_entry(rows: Seq<RemotePaneView>, pane: RemotePaneView) -> Seq<
    RemotePaneView,
> {
    let slot = first_index(pane_ids(rows), pane.pane_id);
    if pane.pane_id.len() == 0 || slot >= rows.len() {
        rows.push(pane)
    } else {
        rows.update(slot, overlaid(rows[slot], pane))
    }
}

/// The panes that a row of entries describes, in the order in which they are
/// first seen.
pub open spec fn united(entries: Seq<RemotePaneView>) -> Seq<RemotePaneView>
    decreases entries.len(),
{
    if entries.len() == 0 {
        Seq::empty()
    } else {
        with_entry(united(entries.drop_last()), entries.last())
    }
}

/// The panes of a snapshot: `panes` first, then `agents` laid over them.
pub open spec fn pane_universe(snap: SnapshotView) -> Seq<RemotePaneView> {
    united(snap.panes + snap.agents)
}

fn add_entry(rows: &mut Vec<RemotePane>, pane: &RemotePane)
    ensures
        pane_views(final(rows)@) == with_entry(pane_views(old(rows)@), pane@),
{
    let ghost before = pane_views(rows@);
    if pane.pane_id.as_str().is_empty() {
        // Nothing to find it again by: it stays an entry of its own.
        rows.push(pane.clone());
        assert(pane_views(rows@) == before.push(pane@));
        return;
    }
    let mut slot: usize = 0;
    while slot < rows.len() && rows[slot].pane_id != pane.pane_id
        invariant
            before == pane_views(rows@),
            slot <= rows@.len(),
            forall|i: int| 0 <= i < slot ==> pane_ids(before)[i] != pane.pane_id@,
        decreases rows@.len() - slot,
    {
        slot = slot + 1;
    }
    proof {
        lemma_is_first_index(pane_ids(before), pane.pane_id@, slot as int);
    }
    if slot < rows.len() {
        let mut row = rows[slot].clone();
        row.overlay(pane);
        rows.set(slot, row);
        assert(pane_views(rows@) == before.update(slot as int, row@));
    } else {
        rows.push(pane.clone());
        assert(pane_views(rows@) == before.push(pane@));
    }
}

fn add_entries(rows: &mut Vec<RemotePane>, entries: &Vec<RemotePane>, Ghost(done): Ghost<
    Seq<RemotePaneView>,
>)
    requires
        pane_views(old(rows)@) == united(done),
    ensures
        pane_views(final(rows)@) == united(done + pane_views(entries@)),
{
    let ghost all = done + pane_views(entries@);
    let mut i: usize = 0;
    assert(all.take(done.len() as int) == done);
    while i < entries.len()
        invariant
            all == done + pane_views(entries@),
            i <= entries@.len(),
            pane_views(rows@) == united(all.take(done.len() + i)),
        decreases entries@.len() - i,
    {
        add_entry(rows, &entries[i]);
        proof {
            let next = all.take(done.len() + i + 1);
            assert(next.drop_last() == all.take(done.len() + i));
            assert(next.last() == entries@[i as int]@);
        }
        i = i + 1;
    }
    assert(all.take(all.len() as int) == all);
}

/// Deduplicated pane universe: `panes` seeded first, then `agents` overlaid,
/// keyed by public pane id, preserving first-seen order.
pub fn merge_pane_universe(snap: &RemoteSnapshot) -> (r: Vec<RemotePane>)
    ensures
        pane_views(r@) == pane_universe(snap@),
{
    let mut rows: Vec<RemotePane> = Vec::new();
    assert(pane_views(rows@) == united(Seq::empty()));
    add_entries(&mut rows, &snap.panes, Ghost(Seq::empty()));
    assert(Seq::<RemotePaneView>::empty() + snap@.panes == snap@.panes);
    add_entries(&mut rows, &snap.agents, Ghost(snap@.panes));
    rows
}

// ---------------------------------------------------------------------------
// What uniting keeps

/// The entries with a given pane id.
pub open spec fn entries_of(entries: Seq<RemotePaneView>, id: Seq<char>) -> Seq<RemotePaneView> {
    entries.filter(|pane: RemotePaneView| pane.pane_id == id)
}

/// The first of a row of entries with the later ones laid over it in turn.
pub open spec fn overlaid_in_turn(entries: Seq<RemotePaneView>) -> RemotePaneView
    recommends
        entries.len() > 0,
    decreases entries.len(),
{
    if entries.len() <= 1 {
        entries[0]
    } else {
        overlaid(overlaid_in_turn(entries.drop_last()), entries.last())
    }
}

/// The ids that are not empty, of a row of ids.
pub open spec fn given_ids(ids: Seq<Seq<char>>) -> Seq<Seq<char>> {
    ids.filter(|id: Seq<char>| id.len() > 0)
}

/// Uniting never makes more rows than there are entries.
pub proof fn lemma_united_len(entries: Seq<RemotePaneView>)
    ensures
        united(entries).len() <= entries.len(),
    decreases entries.len(),
{
    if entries.len() > 0 {
        let rows = united(entries.drop_last());
        lemma_united_len(entries.drop_last());
        lemma_first_index(pane_ids(rows), entries.last().pane_id);
    }
}

/// A pane that appears several times is described once: the rows that have an
/// id have the ids of the entries, each once, in the order in which they are
/// first seen.
pub proof fn law_each_pane_is_described_once(entries: Seq<RemotePaneView>)
    ensures
        given_ids(pane_ids(united(entries))) == first_seen(given_ids(pane_ids(entries))),
        given_ids(pane_ids(united(entries))).no_duplicates(),
    decreases entries.len(),
{
    let keep = |id: Seq<char>| id.len() > 0;
    lemma_first_seen(given_ids(pane_ids(entries)));
    if entries.len() == 0 {
        reveal(Seq::filter);
    } else {
        let rest = entries.drop_last();
        let pane = entries.last();
        let rows = united(rest);
        law_each_pane_is_described_once(rest);
        assert(pane_ids(entries) == pane_ids(rest).push(pane.pane_id));
        lemma_filter_push(pane_ids(rest), pane.pane_id, keep);
        let slot = first_index(pane_ids(rows), pane.pane_id);
        lemma_first_index(pane_ids(rows), pane.pane_id);
        lemma_filter_contains(pane_ids(rows), keep, pane.pane_id);
        lemma_first_seen(given_ids(pane_ids(rest)));
        lemma_first_seen_push(given_ids(pane_ids(rest)), pane.pane_id);
        if pane.pane_id.len() == 0 || slot >= rows.len() {
            assert(pane_ids(rows.push(pane)) == pane_ids(rows).push(pane.pane_id));
            lemma_filter_push(pane_ids(rows), pane.pane_id, keep);
        } else {
            assert(pane_ids(with_entry(rows, pane)) == pane_ids(rows));
        }
    }
}

/// A row says what the entries for its pane say, the later laid over the
/// earlier.
pub proof fn law_rows_fold_their_entries(entries: Seq<RemotePaneView>, id: Seq<char>)
    requires
        id.len() > 0,
        pane_ids(entries).contains(id),
    ensures
        first_index(pane_ids(united(entries)), id) < united(entries).len(),
        united(entries)[first_index(pane_ids(united(entries)), id)] == overlaid_in_turn(
            entries_of(entries, id),
        ),
{
    lemma_rows_fold_their_entries(entries, id);
}

proof fn lemma_rows_fold_their_entries(entries: Seq<RemotePaneView>, id: Seq<char>)
    requires
        id.len() > 0,
    ensures
        pane_ids(entries).contains(id) <==> entries_of(entries, id).len() > 0,
        pane_ids(entries).contains(id) <==> pane_ids(united(entries)).contains(id),
        pane_ids(entries).contains(id) ==> united(entries)[first_index(
            pane_ids(united(entries)),
            id,
        )] == overlaid_in_turn(entries_of(entries, id)) && first_index(
            pane_ids(united(entries)),
            id,
        ) < united(entries).len(),
    decreases entries.len(),
{
    let keep = |pane: RemotePaneView| pane.pane_id == id;
    if entries.len() == 0 {
        reveal(Seq::filter);
        assert(!pane_ids(united(entries)).contains(id));
    } else {
        let rest = entries.drop_last();
        let pane = entries.last();
        let rows = united(rest);
        let ids = pane_ids(rows);
        lemma_rows_fold_their_entries(rest, id);
        assert(entries == rest.push(pane));
        assert(pane_ids(entries) == pane_ids(rest).push(pane.pane_id));
        lemma_push_contains(pane_ids(rest), pane.pane_id, id);
        lemma_filter_push(rest, pane, keep);
        lemma_first_index(ids, id);
        lemma_first_index(ids, pane.pane_id);
        let slot = first_index(ids, pane.pane_id);
        if pane.pane_id.len() == 0 || slot >= rows.len() {
            let more = rows.push(pane);
            assert(pane_ids(more) == ids.push(pane.pane_id));
            lemma_push_contains(ids, pane.pane_id, id);
            if ids.contains(id) {
                assert(pane.pane_id != id);
                lemma_is_first_index(pane_ids(more), id, first_index(ids, id));
            } else if pane.pane_id == id {
                lemma_is_first_index(pane_ids(more), id, ids.len() as int);
                assert(entries_of(rest, id).len() == 0);
                assert(entries_of(entries, id)[0] == pane);
            }
        } else {
            assert(pane_ids(with_entry(rows, pane)) == ids);
            if pane.pane_id == id {
                let mine = entries_of(rest, id);
                assert(mine.len() > 0);
                assert(entries_of(entries, id) == mine.push(pane));
                assert(mine.push(pane).drop_last() == mine);
                assert(overlaid_in_turn(mine.push(pane)) == overlaid(overlaid_in_turn(mine), pane));
            } else if ids.contains(id) {
                assert(first_index(ids, id) != slot);
            }
        }
    }
}

/// What a later entry changes: its agent, its status and its name win where it gives
/// them; its label, its directory and its ids count only where the earlier entry gives
/// none; and the pane stays the same.
pub proof fn law_later_entries_win_for_the_agent_only(
    pane: RemotePaneView,
    other: RemotePaneView,
)
    ensures
        ({
            let r = overlaid(pane, other);
            &&& r.pane_id == pane.pane_id
            &&& other.agent is Some ==> r.agent == other.agent
            &&& other.agent is None ==> r.agent == pane.agent
            &&& other.agent_status.len() > 0 ==> r.agent_status == other.agent_status
            &&& other.agent_status.len() == 0 ==> r.agent_status == pane.agent_status
            &&& other.name is Some ==> r.name == other.name
            &&& other.name is None ==> r.name == pane.name
            &&& pane.label is Some ==> r.label == pane.label
            &&& pane.label is None ==> r.label == other.label
            &&& pane.cwd is Some ==> r.cwd == pane.cwd
            &&& pane.cwd is None ==> r.cwd == other.cwd
            &&& pane.terminal_id.len() > 0 ==> r.terminal_id == pane.terminal_id
            &&& pane.terminal_id.len() == 0 ==> r.terminal_id == other.terminal_id
            &&& pane.tab_id.len() > 0 ==> r.tab_id == pane.tab_id
            &&& pane.tab_id.len() == 0 ==> r.tab_id == other.tab_id
            &&& pane.workspace_id.len() > 0 ==> r.workspace_id == pane.workspace_id
            &&& pane.workspace_id.len() == 0 ==> r.workspace_id == other.workspace_id
        }),
{
}

/// A pane that bears an agent is described by both of its entries: the agent, the
/// status and the name are those of its entry among the agents where that gives them,
/// the rest is what its entry among the panes says.
pub proof fn law_agents_are_laid_over_panes(
    snap: SnapshotView,
    pane: RemotePaneView,
    agent: RemotePaneView,
)
    requires
        pane.pane_id.len() > 0,
        entries_of(snap.panes, pane.pane_id) == seq![pane],
        entries_of(snap.agents, pane.pane_id) == seq![agent],
    ensures
        ({
            let ids = pane_ids(pane_universe(snap));
            let slot = first_index(ids, pane.pane_id);
            let row = pane_universe(snap)[slot];
            &&& 0 <= slot < pane_universe(snap).len()
            &&& row.pane_id == pane.pane_id
            &&& agent.agent is Some ==> row.agent == agent.agent
            &&& agent.agent_status.len() > 0 ==> row.agent_status == agent.agent_status
            &&& agent.name is Some ==> row.name == agent.name
            &&& pane.label is Some ==> row.label == pane.label
            &&& pane.cwd is Some ==> row.cwd == pane.cwd
            &&& pane.terminal_id.len() > 0 ==> row.terminal_id == pane.terminal_id
            &&& pane.tab_id.len() > 0 ==> row.tab_id == pane.tab_id
            &&& pane.workspace_id.len() > 0 ==> row.workspace_id == pane.workspace_id
        }),
{
    let id = pane.pane_id;
    let keep = |entry: RemotePaneView| entry.pane_id == id;
    let entries = snap.panes + snap.agents;
    Seq::filter_distributes_over_add(snap.panes, snap.agents, keep);
    assert(entries_of(entries, id) == seq![pane, agent]);
    lemma_rows_fold_their_entries(entries, id);
    lemma_first_index(pane_ids(pane_universe(snap)), id);
    assert(seq![pane, agent].drop_last() == seq![pane]);
    reveal_with_fuel(overlaid_in_turn, 2);
    assert(overlaid_in_turn(seq![pane, agent]) == overlaid(pane, agent));
}

/// Entries without an id cannot be told to be one pane: each of them stays, as it is
/// and in order.
pub proof fn law_unnamed_entries_all_stay(entries: Seq<RemotePaneView>)
    ensures
        united(entries).filter(|pane: RemotePaneView| pane.pane_id.len() == 0) == entries.filter(
            |pane: RemotePaneView| pane.pane_id.len() == 0,
        ),
    decreases entries.len(),
{
    let unnamed = |pane: RemotePaneView| pane.pane_id.len() == 0;
    if entries.len() == 0 {
        reveal(Seq::filter);
    } else {
        let rest = entries.drop_last();
        let pane = entries.last();
        let rows = united(rest);
        law_unnamed_entries_all_stay(rest);
        assert(entries == rest.push(pane));
        lemma_filter_push(rest, pane, unnamed);
        let slot = first_index(pane_ids(rows), pane.pane_id);
        lemma_first_index(pane_ids(rows), pane.pane_id);
        if pane.pane_id.len() == 0 || slot >= rows.len() {
            lemma_filter_push(rows, pane, unnamed);
        } else {
            assert(pane_ids(rows)[slot] == rows[slot].pane_id);
            lemma_filter_update(rows, slot, overlaid(rows[slot], pane), unnamed);
        }
    }
}

proof fn lemma_filter_update<T>(s: Seq<T>, n: int, x: T, keep: spec_fn(T) -> bool)
    requires
        0 <= n < s.len(),
        !keep(s[n]),
        !keep(x),
    ensures
        s.update(n, x).filter(keep) == s.filter(keep),
    decreases s.len(),
{
    let rest = s.drop_last();
    let changed = s.update(n, x);
    assert(s == rest.push(s.last()));
    lemma_filter_push(rest, s.last(), keep);
    if n == s.len() - 1 {
        assert(changed == rest.push(x));
        lemma_filter_push(rest, x, keep);
    } else {
        assert(changed == rest.update(n, x).push(s.last()));
        lemma_filter_push(rest.update(n, x), s.last(), keep);
        lemma_filter_update(rest, n, x, keep);
    }
}

/// The name that is shown of a pane: its agent name where that holds more than white
/// space, else its label where that does, trimmed; and none where neither does.
pub proof fn law_the_name_goes_before_the_label(pane: RemotePaneView)
    ensures
        ({
            let name = pane.name is Some && exists|i: int|
                0 <= i < pane.name->0.len() && !white_space(#[trigger] pane.name->0[i]);
            let label = pane.label is Some && exists|i: int|
                0 <= i < pane.label->0.len() && !white_space(#[trigger] pane.label->0[i]);
            &&& name ==> display_name_of(pane) == Some(trimmed(pane.name->0))
            &&& !name && label ==> display_name_of(pane) == Some(trimmed(pane.label->0))
            &&& !name && !label ==> display_name_of(pane) is None
        }),
{
    if let Some(name) = pane.name {
        law_trimming_drops_outer_space_only(name);
    }
    if let Some(label) = pane.label {
        law_trimming_drops_outer_space_only(label);
    }
}

} // verus!
