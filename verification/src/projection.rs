//! What holds of the rows of every snapshot.
use vstd::prelude::*;

use crate::grouping::{
    ids_of_tabs, in_tab, in_workspace, law_tabs_show_their_panes_in_order,
    law_tree_counts_every_pane, law_tree_is_well_formed, lemma_names_own_panes, panes_in_tabs,
    panes_in_workspaces, tab_ids, workspace_groups, workspace_ids, PlacedPane, TabGroup,
    WorkspaceGroup,
};
use crate::ingest::{
    foreign_rows, kept_panes, labels_of, lemma_kept_panes_len, lemma_panes_in_tabs_take,
    lemma_panes_in_workspaces_take, placed, placed_panes, rows_of, state_of_status, survives,
    tab_of, tabs_of, tree_of, workspace_entry, workspace_name, workspaces_of, ForeignRows, RowsView,
};
use crate::layout::{block_start, PaneId, PANE_BLOCK};
use crate::namespace::{law_parse_undoes_namespacing, namespaced, parsed};
use crate::origin::{valid_key, Origin, OriginView};
use crate::panes::{display_name_of, pane_universe};
use crate::seqs::{
    first_index, lemma_filter_contains, lemma_filter_push, lemma_first_index, lemma_first_seen,
    lemma_is_first_index, lemma_push_contains,
};
use crate::snapshot::{RemotePaneView, RemoteSnapshot, RemoteWorkspaceView, SnapshotView};
use crate::terminal::{agent_named, AgentTable, AgentsView};
use crate::text::{law_trimming_drops_outer_space_only, trimmed, white_space};
use crate::workspace::{TabView, WorkspaceView};

verus! {

// ---------------------------------------------------------------------------
// Ids

/// Every pane that gets a row survives.
proof fn lemma_kept_survive(snap: SnapshotView, i: int)
    requires
        0 <= i < kept_panes(snap).len(),
    ensures
        survives(kept_panes(snap)[i]),
{
    let keep = |pane: RemotePaneView| survives(pane);
    assert(kept_panes(snap).contains(kept_panes(snap)[i]));
    lemma_filter_contains(pane_universe(snap), keep, kept_panes(snap)[i]);
}

/// The id of a workspace in the tree is the workspace id of a pane.
proof fn lemma_tree_ids(row: Seq<PlacedPane>, i: int) -> (m: int)
    requires
        0 <= i < workspace_groups(row).len(),
    ensures
        0 <= m < row.len(),
        row[m].workspace_id == workspace_groups(row)[i].id,
{
    let names = row.map_values(|pane: PlacedPane| pane.workspace_id);
    lemma_first_seen(names);
    let id = workspace_ids(row)[i];
    assert(workspace_ids(row).contains(id));
    let m = choose|m: int| 0 <= m < names.len() && names[m] == id;
    assert(names[m] == id);
    m
}

/// Every row carries the origin in its id: a terminal's key is its own id and
/// parses back to the origin and the raw terminal id, and a workspace's id
/// parses back to the origin.
pub proof fn law_rows_are_namespaced(
    origin: OriginView,
    snap: SnapshotView,
    agents: AgentsView,
    block: u64,
)
    requires
        valid_key(origin.key),
    ensures
        ({
            let rows = rows_of(origin, snap, agents, block);
            &&& forall|i: int|
                0 <= i < rows.terminals.len() ==> (#[trigger] rows.terminals[i]).0
                    == rows.terminals[i].1.id && parsed(rows.terminals[i].0) == Some(
                    (origin.key, trimmed(kept_panes(snap)[i].terminal_id)),
                )
            &&& forall|i: int|
                0 <= i < rows.workspaces.len() ==> parsed((#[trigger] rows.workspaces[i]).id)
                    == Some((origin.key, tree_of(origin, snap)[i].id))
        }),
{
    let rows = rows_of(origin, snap, agents, block);
    let kept = kept_panes(snap);
    assert forall|i: int| 0 <= i < rows.terminals.len() implies (#[trigger] rows.terminals[i]).0
        == rows.terminals[i].1.id && parsed(rows.terminals[i].0) == Some(
        (origin.key, trimmed(kept[i].terminal_id)),
    ) by {
        lemma_kept_survive(snap, i);
        law_parse_undoes_namespacing(origin.key, trimmed(kept[i].terminal_id));
    }
    assert forall|i: int| 0 <= i < rows.workspaces.len() implies parsed(
        (#[trigger] rows.workspaces[i]).id,
    ) == Some((origin.key, tree_of(origin, snap)[i].id)) by {
        let m = lemma_tree_ids(placed_panes(origin.key, kept), i);
        lemma_kept_survive(snap, m);
        law_parse_undoes_namespacing(origin.key, tree_of(origin, snap)[i].id);
    }
}

/// Rows of different origins share no terminal id and no workspace id, whatever
/// their servers call them.
pub proof fn law_origins_never_collide(
    a: OriginView,
    snap_a: SnapshotView,
    block_a: u64,
    b: OriginView,
    snap_b: SnapshotView,
    block_b: u64,
    agents: AgentsView,
)
    requires
        valid_key(a.key),
        valid_key(b.key),
        a.key != b.key,
    ensures
        ({
            let rows_a = rows_of(a, snap_a, agents, block_a);
            let rows_b = rows_of(b, snap_b, agents, block_b);
            &&& forall|i: int, j: int|
                0 <= i < rows_a.terminals.len() && 0 <= j < rows_b.terminals.len() ==> (
                #[trigger] rows_a.terminals[i]).0 != (#[trigger] rows_b.terminals[j]).0
            &&& forall|i: int, j: int|
                0 <= i < rows_a.workspaces.len() && 0 <= j < rows_b.workspaces.len() ==> (
                #[trigger] rows_a.workspaces[i]).id != (#[trigger] rows_b.workspaces[j]).id
        }),
{
    law_rows_are_namespaced(a, snap_a, agents, block_a);
    law_rows_are_namespaced(b, snap_b, agents, block_b);
}

/// The workspaces of one origin have different ids.
pub proof fn law_workspace_ids_are_distinct(
    origin: OriginView,
    snap: SnapshotView,
    agents: AgentsView,
    block: u64,
)
    requires
        valid_key(origin.key),
    ensures
        ({
            let rows = rows_of(origin, snap, agents, block);
            forall|i: int, j: int|
                0 <= i < j < rows.workspaces.len() ==> (#[trigger] rows.workspaces[i]).id != (
                #[trigger] rows.workspaces[j]).id
        }),
{
    let row = placed_panes(origin.key, kept_panes(snap));
    law_rows_are_namespaced(origin, snap, agents, block);
    lemma_first_seen(row.map_values(|pane: PlacedPane| pane.workspace_id));
    let rows = rows_of(origin, snap, agents, block);
    let tree = tree_of(origin, snap);
    assert forall|i: int, j: int| 0 <= i < j < rows.workspaces.len() implies (
    #[trigger] rows.workspaces[i]).id != (#[trigger] rows.workspaces[j]).id by {
        assert(tree[i].id == workspace_ids(row)[i]);
        assert(tree[j].id == workspace_ids(row)[j]);
    }
}

// ---------------------------------------------------------------------------
// Shape

/// Every workspace has a tab, its active tab is one of them, every tab has a
/// pane, and the tab's root and its focus are panes of it.
pub proof fn law_rows_are_inhabited(
    origin: OriginView,
    snap: SnapshotView,
    agents: AgentsView,
    block: u64,
)
    requires
        snap.numberable(),
    ensures
        ({
            let rows = rows_of(origin, snap, agents, block);
            &&& forall|i: int|
                0 <= i < rows.workspaces.len() ==> 0 <= (
                #[trigger] rows.workspaces[i]).active_tab < rows.workspaces[i].tabs.len()
            &&& forall|i: int, j: int|
                0 <= i < rows.workspaces.len() && 0 <= j < rows.workspaces[i].tabs.len() ==> {
                    let tab = #[trigger] rows.workspaces[i].tabs[j];
                    &&& tab.panes.contains_key(tab.root_pane)
                    &&& tab.panes.contains_key(tab.layout.focused)
                    &&& tab.layout.root == tab.root_pane
                }
        }),
{
    let rows = rows_of(origin, snap, agents, block);
    let row = placed_panes(origin.key, kept_panes(snap));
    let tree = tree_of(origin, snap);
    law_tree_is_well_formed(row);
    assert forall|i: int| 0 <= i < rows.workspaces.len() implies 0 <= (
    #[trigger] rows.workspaces[i]).active_tab < rows.workspaces[i].tabs.len() by {
        let entry = workspace_entry(snap.workspaces, tree[i].id);
        if let Some(workspace) = entry {
            lemma_first_index(
                ids_of_tabs(tree[i].tabs),
                workspace.active_tab_id,
            );
        }
        assert(tree[i].tabs.len() > 0);
    }
    assert forall|i: int, j: int|
        0 <= i < rows.workspaces.len() && 0 <= j < rows.workspaces[i].tabs.len() implies ({
        let tab = #[trigger] rows.workspaces[i].tabs[j];
        tab.panes.contains_key(tab.root_pane) && tab.panes.contains_key(tab.layout.focused)
            && tab.layout.root == tab.root_pane
    }) by {
        lemma_tab_fits(origin, snap, agents, block, i, j);
        assert(tree[i].tabs[j].terminals.len() > 0);
    }
}

/// The first pane id of a tab in the rows.
pub open spec fn tab_start(
    origin: OriginView,
    snap: SnapshotView,
    block: u64,
    i: int,
    j: int,
) -> int {
    let tree = tree_of(origin, snap);
    block_start(block) + panes_in_workspaces(tree.take(i)) + panes_in_tabs(tree[i].tabs.take(j))
}

/// The panes of a tab are those with the ids from the tab's start on, one for
/// each of its terminals, and all of them lie in the block.
proof fn lemma_tab_fits(
    origin: OriginView,
    snap: SnapshotView,
    agents: AgentsView,
    block: u64,
    i: int,
    j: int,
)
    requires
        snap.numberable(),
        0 <= i < tree_of(origin, snap).len(),
        0 <= j < tree_of(origin, snap)[i].tabs.len(),
    ensures
        rows_of(origin, snap, agents, block).workspaces[i].tabs[j] == tab_of(
            tree_of(origin, snap)[i].tabs[j].terminals,
            j + 1,
            tab_start(origin, snap, block, i, j),
        ),
        block_start(block) <= tab_start(origin, snap, block, i, j),
        tab_start(origin, snap, block, i, j) + tree_of(origin, snap)[i].tabs[j].terminals.len()
            <= block_start(block) + panes_in_workspaces(tree_of(origin, snap).take(i))
            + panes_in_tabs(tree_of(origin, snap)[i].tabs),
        block_start(block) + panes_in_workspaces(tree_of(origin, snap).take(i)) + panes_in_tabs(
            tree_of(origin, snap)[i].tabs,
        ) < block_start(block) + PANE_BLOCK <= u128::MAX + 1,
{
    let tree = tree_of(origin, snap);
    let tabs = tree[i].tabs;
    lemma_kept_panes_len(snap);
    law_tree_counts_every_pane(placed_panes(origin.key, kept_panes(snap)));
    lemma_panes_in_workspaces_take(tree, i);
    lemma_panes_in_tabs_take(tabs, j + 1);
    assert(tabs.take(j + 1).drop_last() == tabs.take(j));
    assert(tabs.take(j + 1).last() == tabs[j]);
    assert(block * PANE_BLOCK <= u64::MAX * PANE_BLOCK);
}

/// A pane of the tree shows the terminal of a row.
proof fn lemma_tree_terminal(row: Seq<PlacedPane>, i: int, j: int, k: int) -> (m: int)
    requires
        0 <= i < workspace_groups(row).len(),
        0 <= j < workspace_groups(row)[i].tabs.len(),
        0 <= k < workspace_groups(row)[i].tabs[j].terminals.len(),
    ensures
        0 <= m < row.len(),
        row[m].terminal == workspace_groups(row)[i].tabs[j].terminals[k],
        row[m].workspace_id == workspace_groups(row)[i].id,
        row[m].tab_id == workspace_groups(row)[i].tabs[j].id,
{
    let id = workspace_ids(row)[i];
    let mine = in_workspace(row, id);
    let tab = tab_ids(mine)[j];
    let pane = in_tab(mine, tab)[k];
    assert(in_tab(mine, tab).contains(pane));
    lemma_filter_contains(mine, |p: PlacedPane| p.tab_id == tab, pane);
    lemma_filter_contains(row, |p: PlacedPane| p.workspace_id == id, pane);
    let m = choose|m: int| 0 <= m < row.len() && row[m] == pane;
    assert(row[m] == pane);
    m
}

/// The terminal of every row is shown by a pane of the tree.
proof fn lemma_row_in_tree(row: Seq<PlacedPane>, m: int) -> (r: (int, int, int))
    requires
        0 <= m < row.len(),
    ensures
        0 <= r.0 < workspace_groups(row).len(),
        0 <= r.1 < workspace_groups(row)[r.0].tabs.len(),
        0 <= r.2 < workspace_groups(row)[r.0].tabs[r.1].terminals.len(),
        workspace_groups(row)[r.0].id == row[m].workspace_id,
        workspace_groups(row)[r.0].tabs[r.1].id == row[m].tab_id,
        workspace_groups(row)[r.0].tabs[r.1].terminals[r.2] == row[m].terminal,
{
    let pane = row[m];
    let id = pane.workspace_id;
    let mine = in_workspace(row, id);
    assert(row.contains(pane));
    lemma_filter_contains(row, |p: PlacedPane| p.workspace_id == id, pane);
    lemma_names_own_panes(row, id);
    assert(mine.contains(pane));
    let i = choose|i: int| 0 <= i < workspace_ids(row).len() && workspace_ids(row)[i] == id;
    assert(workspace_ids(row)[i] == id);
    let names = mine.map_values(|p: PlacedPane| p.tab_id);
    let n = choose|n: int| 0 <= n < mine.len() && mine[n] == pane;
    assert(names[n] == pane.tab_id);
    assert(names.contains(pane.tab_id));
    lemma_first_seen(names);
    assert(tab_ids(mine).contains(pane.tab_id));
    let j = choose|j: int| 0 <= j < tab_ids(mine).len() && tab_ids(mine)[j] == pane.tab_id;
    assert(tab_ids(mine)[j] == pane.tab_id);
    lemma_filter_contains(mine, |p: PlacedPane| p.tab_id == pane.tab_id, pane);
    let panes = in_tab(mine, pane.tab_id);
    let k = choose|k: int| 0 <= k < panes.len() && panes[k] == pane;
    assert(panes[k] == pane);
    assert(workspace_groups(row)[i].tabs[j].terminals[k] == pane.terminal);
    (i, j, k)
}

/// Every pane in the tree shows a terminal that has a row.
pub proof fn law_every_pane_shows_a_row(
    origin: OriginView,
    snap: SnapshotView,
    agents: AgentsView,
    block: u64,
    i: int,
    j: int,
    pane: PaneId,
)
    requires
        snap.numberable(),
        0 <= i < rows_of(origin, snap, agents, block).workspaces.len(),
        0 <= j < rows_of(origin, snap, agents, block).workspaces[i].tabs.len(),
        rows_of(origin, snap, agents, block).workspaces[i].tabs[j].panes.contains_key(pane),
    ensures
        ({
            let rows = rows_of(origin, snap, agents, block);
            exists|m: int|
                0 <= m < rows.terminals.len() && (#[trigger] rows.terminals[m]).0
                    == rows.workspaces[i].tabs[j].panes[pane]
        }),
{
    let row = placed_panes(origin.key, kept_panes(snap));
    lemma_tab_fits(origin, snap, agents, block, i, j);
    let m = lemma_tree_terminal(row, i, j, pane - tab_start(origin, snap, block, i, j));
    let rows = rows_of(origin, snap, agents, block);
    assert(rows.terminals[m].0 == rows.workspaces[i].tabs[j].panes[pane]);
}

/// The terminal of every row is shown by a pane, in the workspace and the tab
/// that the remote names for it.
pub proof fn law_every_row_is_shown(
    origin: OriginView,
    snap: SnapshotView,
    agents: AgentsView,
    block: u64,
    m: int,
)
    requires
        snap.numberable(),
        0 <= m < rows_of(origin, snap, agents, block).terminals.len(),
    ensures
        ({
            let rows = rows_of(origin, snap, agents, block);
            let tree = tree_of(origin, snap);
            exists|i: int, j: int, pane: PaneId|
                0 <= i < rows.workspaces.len() && 0 <= j < rows.workspaces[i].tabs.len()
                    && #[trigger] rows.workspaces[i].tabs[j].panes.contains_key(pane)
                    && rows.workspaces[i].tabs[j].panes[pane] == rows.terminals[m].0
                    && tree[i].id == kept_panes(snap)[m].workspace_id
                    && tree[i].tabs[j].id == kept_panes(snap)[m].tab_id
        }),
{
    let row = placed_panes(origin.key, kept_panes(snap));
    let (i, j, k) = lemma_row_in_tree(row, m);
    lemma_tab_fits(origin, snap, agents, block, i, j);
    let rows = rows_of(origin, snap, agents, block);
    let pane = (tab_start(origin, snap, block, i, j) + k) as PaneId;
    assert(rows.workspaces[i].tabs[j].panes.contains_key(pane));
}

/// Whether a tab, given by its workspace's place and its own, has a pane.
pub open spec fn has_pane(rows: RowsView, tab: (int, int), pane: PaneId) -> bool {
    &&& 0 <= tab.0 < rows.workspaces.len()
    &&& 0 <= tab.1 < rows.workspaces[tab.0].tabs.len()
    &&& rows.workspaces[tab.0].tabs[tab.1].panes.contains_key(pane)
}

/// Panes of different tabs have different ids, across all workspaces of the
/// rows.
pub proof fn law_pane_ids_are_unique(
    origin: OriginView,
    snap: SnapshotView,
    agents: AgentsView,
    block: u64,
    tab1: (int,
    int),
    tab2: (int,
    int),
    pane: PaneId,
)
    requires
        snap.numberable(),
        has_pane(rows_of(origin, snap, agents, block), tab1, pane),
        has_pane(rows_of(origin, snap, agents, block), tab2, pane),
    ensures
        tab1 == tab2,
        block_start(block) <= pane < block_start(block) + PANE_BLOCK,
{
    lemma_tab_fits(origin, snap, agents, block, tab1.0, tab1.1);
    lemma_tab_fits(origin, snap, agents, block, tab2.0, tab2.1);
    lemma_tab_order(origin, snap, agents, block, tab1, tab2);
    lemma_tab_order(origin, snap, agents, block, tab2, tab1);
}

/// A tab's panes come before those of every later tab.
proof fn lemma_tab_order(
    origin: OriginView,
    snap: SnapshotView,
    agents: AgentsView,
    block: u64,
    tab1: (int,
    int),
    tab2: (int,
    int),
)
    requires
        snap.numberable(),
        0 <= tab1.0 < tree_of(origin, snap).len(),
        0 <= tab1.1 < tree_of(origin, snap)[tab1.0].tabs.len(),
        0 <= tab2.0 < tree_of(origin, snap).len(),
        0 <= tab2.1 < tree_of(origin, snap)[tab2.0].tabs.len(),
    ensures
        tab1.0 < tab2.0 || (tab1.0 == tab2.0 && tab1.1 < tab2.1) ==> tab_start(
            origin,
            snap,
            block,
            tab1.0,
            tab1.1,
        ) + tree_of(origin, snap)[tab1.0].tabs[tab1.1].terminals.len() <= tab_start(
            origin,
            snap,
            block,
            tab2.0,
            tab2.1,
        ),
{
    let tree = tree_of(origin, snap);
    let tabs = tree[tab1.0].tabs;
    if tab1.0 < tab2.0 {
        lemma_tab_fits(origin, snap, agents, block, tab1.0, tab1.1);
        let before = tree.take(tab2.0);
        lemma_panes_in_workspaces_take(before, tab1.0);
        assert(before.take(tab1.0) == tree.take(tab1.0));
    } else if tab1.0 == tab2.0 && tab1.1 < tab2.1 {
        let before = tabs.take(tab2.1);
        lemma_panes_in_tabs_take(before, tab1.1 + 1);
        assert(before.take(tab1.1 + 1) == tabs.take(tab1.1 + 1));
        assert(tabs.take(tab1.1 + 1).drop_last() == tabs.take(tab1.1));
        assert(tabs.take(tab1.1 + 1).last() == tabs[tab1.1]);
    }
}

// ---------------------------------------------------------------------------
// Counting

/// The number of panes in a row of tabs.
pub open spec fn pane_count(tabs: Seq<TabView>) -> nat
    decreases tabs.len(),
{
    if tabs.len() == 0 {
        0
    } else {
        pane_count(tabs.drop_last()) + tabs.last().panes.len()
    }
}

/// The number of panes in a row of workspaces.
pub open spec fn pane_total(workspaces: Seq<WorkspaceView>) -> nat
    decreases workspaces.len(),
{
    if workspaces.len() == 0 {
        0
    } else {
        pane_total(workspaces.drop_last()) + pane_count(workspaces.last().tabs)
    }
}

/// A map whose keys are `n` consecutive ids has `n` entries.
proof fn lemma_consecutive_len<V>(m: Map<PaneId, V>, first: int, n: nat)
    requires
        0 <= first,
        first + n <= u128::MAX + 1,
        forall|id: PaneId| #[trigger] m.contains_key(id) <==> first <= id < first + n,
    ensures
        m.dom().finite(),
        m.len() == n,
    decreases n,
{
    if n == 0 {
        assert(m.dom() == Set::<PaneId>::empty());
    } else {
        let last = (first + n - 1) as PaneId;
        let rest = m.remove(last);
        assert forall|id: PaneId| #[trigger] rest.contains_key(id) <==> first <= id < first + (n
            - 1) by {
            assert(rest.contains_key(id) <==> m.contains_key(id) && id != last);
        }
        lemma_consecutive_len(rest, first, (n - 1) as nat);
        assert(m.contains_key(last));
        assert(m.dom() == rest.dom().insert(last));
    }
}

proof fn lemma_pane_count(tabs: Seq<TabGroup>, first: int)
    requires
        0 <= first,
        first + panes_in_tabs(tabs) <= u128::MAX + 1,
    ensures
        pane_count(tabs_of(tabs, first)) == panes_in_tabs(tabs),
    decreases tabs.len(),
{
    if tabs.len() > 0 {
        let rest = tabs.drop_last();
        let views = tabs_of(tabs, first);
        assert(tabs.take(tabs.len() - 1) == rest);
        assert forall|k: int| 0 <= k < rest.len() implies tabs.take(k) == #[trigger] rest.take(
            k,
        ) by {
        }
        assert(views.drop_last() == tabs_of(rest, first));
        lemma_pane_count(rest, first);
        lemma_consecutive_len(
            views.last().panes,
            first + panes_in_tabs(rest),
            tabs.last().terminals.len(),
        );
    }
}

proof fn lemma_pane_total(
    origin: OriginView,
    snap: SnapshotView,
    groups: Seq<WorkspaceGroup>,
    first: int,
)
    requires
        0 <= first,
        first + panes_in_workspaces(groups) <= u128::MAX + 1,
    ensures
        pane_total(
            workspaces_of(origin, snap.workspaces, groups, first),
        ) == panes_in_workspaces(groups),
    decreases groups.len(),
{
    if groups.len() > 0 {
        let rest = groups.drop_last();
        let views = workspaces_of(origin, snap.workspaces, groups, first);
        assert(groups.take(groups.len() - 1) == rest);
        assert forall|k: int| 0 <= k < rest.len() implies groups.take(k) == #[trigger] rest.take(
            k,
        ) by {
        }
        assert(views.drop_last() == workspaces_of(
            origin,
            snap.workspaces,
            rest,
            first,
        ));
        lemma_pane_total(origin, snap, rest, first);
        lemma_pane_count(groups.last().tabs, first + panes_in_workspaces(rest));
    }
}

/// The tree has one pane for each terminal row, and no other.
pub proof fn law_one_pane_for_each_terminal(
    origin: OriginView,
    snap: SnapshotView,
    agents: AgentsView,
    block: u64,
)
    requires
        snap.numberable(),
    ensures
        pane_total(rows_of(origin, snap, agents, block).workspaces) == rows_of(
            origin,
            snap,
            agents,
            block,
        ).terminals.len(),
{
    let row = placed_panes(origin.key, kept_panes(snap));
    lemma_kept_panes_len(snap);
    law_tree_counts_every_pane(row);
    assert(block * PANE_BLOCK <= u64::MAX * PANE_BLOCK);
    lemma_pane_total(origin, snap, tree_of(origin, snap), block_start(block));
}

/// Public pane numbers are a numbering of a workspace's panes from one: a pane
/// has a number exactly if it is in a tab of the workspace, numbers lie between
/// one and the next number to give, and no two panes share one.
pub proof fn law_panes_are_numbered(
    origin: OriginView,
    snap: SnapshotView,
    agents: AgentsView,
    block: u64,
    i: int,
    pane: PaneId,
)
    requires
        snap.numberable(),
        0 <= i < rows_of(origin, snap, agents, block).workspaces.len(),
    ensures
        ({
            let workspace = rows_of(origin, snap, agents, block).workspaces[i];
            let numbers = workspace.public_pane_numbers;
            &&& numbers.contains_key(pane) <==> exists|j: int|
                0 <= j < workspace.tabs.len() && (#[trigger] workspace.tabs[j]).panes.contains_key(
                    pane,
                )
            &&& numbers.contains_key(pane) ==> 1 <= numbers[pane]
                < workspace.next_public_pane_number
            &&& forall|other: PaneId|
                numbers.contains_key(pane) && numbers.contains_key(other) && numbers[pane]
                    == #[trigger] numbers[other] ==> pane == other
        }),
{
    let rows = rows_of(origin, snap, agents, block);
    let row = placed_panes(origin.key, kept_panes(snap));
    let tree = tree_of(origin, snap);
    let tabs = tree[i].tabs;
    let start = block_start(block) + panes_in_workspaces(tree.take(i));
    law_tree_is_well_formed(row);
    assert(tabs.len() > 0);
    lemma_tab_fits(origin, snap, agents, block, i, 0);
    lemma_kept_panes_len(snap);
    law_tree_counts_every_pane(row);
    lemma_panes_in_workspaces_take(tree, i);
    if start <= pane < start + panes_in_tabs(tabs) {
        let j = lemma_tab_with(tabs, pane - start);
        lemma_tab_fits(origin, snap, agents, block, i, j);
        assert(rows.workspaces[i].tabs[j].panes.contains_key(pane));
    }
    assert forall|j: int| 0 <= j < rows.workspaces[i].tabs.len() && (
    #[trigger] rows.workspaces[i].tabs[j]).panes.contains_key(pane) implies start <= pane < start
        + panes_in_tabs(tabs) by {
        lemma_tab_fits(origin, snap, agents, block, i, j);
    }
}

/// The tab that has the pane at an offset.
proof fn lemma_tab_with(tabs: Seq<TabGroup>, offset: int) -> (j: int)
    requires
        0 <= offset < panes_in_tabs(tabs),
    ensures
        0 <= j < tabs.len(),
        panes_in_tabs(tabs.take(j)) <= offset < panes_in_tabs(tabs.take(j))
            + tabs[j].terminals.len(),
    decreases tabs.len(),
{
    let rest = tabs.drop_last();
    assert(tabs.take(tabs.len() - 1) == rest);
    if offset >= panes_in_tabs(rest) {
        tabs.len() - 1
    } else {
        let j = lemma_tab_with(rest, offset);
        assert(rest.take(j) == tabs.take(j));
        j
    }
}

// ---------------------------------------------------------------------------
// What is not asked

/// Nothing is asked of a remote's paths: no workspace of an origin has a branch,
/// counts against an upstream, a repository or a worktree, nor any metadata.
pub proof fn law_remote_paths_are_never_asked_of_git(
    origin: OriginView,
    snap: SnapshotView,
    agents: AgentsView,
    block: u64,
    i: int,
)
    requires
        0 <= i < rows_of(origin, snap, agents, block).workspaces.len(),
    ensures
        ({
            let workspace = rows_of(origin, snap, agents, block).workspaces[i];
            &&& workspace.cached_git_branch is None
            &&& workspace.cached_git_ahead_behind is None
            &&& workspace.cached_git_space is None
            &&& workspace.worktree_space is None
            &&& workspace.metadata_tokens.len() == 0
            &&& workspace.metadata_token_sequences.len() == 0
        }),
{
}

/// The rows need the label parser for the snapshot's own labels only: two tables
/// that agree on these give the same rows.
pub proof fn law_only_the_labels_of_the_snapshot_matter(
    origin: OriginView,
    snap: SnapshotView,
    agents1: AgentsView,
    agents2: AgentsView,
    block: u64,
)
    requires
        forall|label: Seq<char>| #[trigger]
            labels_of(pane_universe(snap)).contains(label) ==> agent_named(agents1, label)
                == agent_named(agents2, label),
    ensures
        rows_of(origin, snap, agents1, block) == rows_of(origin, snap, agents2, block),
{
    let kept = kept_panes(snap);
    let rows1 = rows_of(origin, snap, agents1, block);
    let rows2 = rows_of(origin, snap, agents2, block);
    let keep = |pane: RemotePaneView| survives(pane);
    assert forall|i: int| 0 <= i < kept.len() implies rows1.terminals[i]
        == rows2.terminals[i] by {
        assert(kept.contains(kept[i]));
        lemma_filter_contains(pane_universe(snap), keep, kept[i]);
        let k = choose|k: int| 0 <= k < pane_universe(snap).len() && pane_universe(snap)[k]
            == kept[i];
        if let Some(label) = kept[i].agent {
            lemma_labels_of(pane_universe(snap), k);
            assert(labels_of(pane_universe(snap)).contains(label));
        }
    }
    assert(rows1.terminals == rows2.terminals);
}

/// The label of each pane is among the labels.
proof fn lemma_labels_of(panes: Seq<RemotePaneView>, k: int)
    requires
        0 <= k < panes.len(),
        panes[k].agent is Some,
    ensures
        labels_of(panes).contains(panes[k].agent->0),
    decreases panes.len(),
{
    let rest = panes.drop_last();
    let label = panes[k].agent->0;
    if let Some(last) = panes.last().agent {
        lemma_push_contains(labels_of(rest), last, label);
    }
    if k < rest.len() {
        lemma_labels_of(rest, k);
    }
}

// ---------------------------------------------------------------------------
// What rows say

/// The tabs of an origin are plain: none is zoomed, none has a name of its own, and
/// they are numbered from one.
pub proof fn law_foreign_tabs_are_plain(
    origin: OriginView,
    snap: SnapshotView,
    agents: AgentsView,
    block: u64,
)
    ensures
        ({
            let rows = rows_of(origin, snap, agents, block);
            forall|i: int, j: int|
                0 <= i < rows.workspaces.len() && 0 <= j < rows.workspaces[i].tabs.len() ==> {
                    let tab = #[trigger] rows.workspaces[i].tabs[j];
                    &&& !tab.zoomed
                    &&& tab.custom_name is None
                    &&& tab.number == j + 1
                }
        }),
{
}

/// No tab that the hub builds for an origin is zoomed or has a name of its own; each
/// has the number that it is built for, and its first pane is its root.
pub proof fn law_built_tabs_are_plain(
    number: usize,
    terminals: Seq<Seq<char>>,
    first: PaneId,
)
    ensures
        ({
            let tab = tab_of(terminals, number as int, first as int);
            &&& !tab.zoomed
            &&& tab.custom_name is None
            &&& tab.number == number
            &&& tab.root_pane == first
            &&& tab.layout.root == first
        }),
{
}

/// The rows that a snapshot is mapped to hold no zoomed tab, no named tab, and as
/// many terminals as panes with a place and a terminal.
pub proof fn law_mapped_tabs_are_plain(
    origin: &Origin,
    snap: &RemoteSnapshot,
    agents: &AgentTable,
    block: u64,
    r: ForeignRows,
)
    requires
        call_ensures(foreign_rows, (origin, snap, agents, block), r),
    ensures
        forall|i: int, j: int|
            0 <= i < r.workspaces@.len() && 0 <= j < r.workspaces@[i].tabs@.len() ==> {
                let tab = #[trigger] r.workspaces@[i].tabs@[j];
                &&& !tab.zoomed
                &&& tab.custom_name is None
                &&& tab.number == j + 1
            },
        r.terminals@.len() == kept_panes(snap@).len(),
{
    let rows = rows_of(origin@, snap@, agents@, block);
    law_foreign_tabs_are_plain(origin@, snap@, agents@, block);
    assert(r@ == rows);
    assert(r@.terminals.len() == r.terminals@.len());
    assert forall|i: int, j: int|
        0 <= i < r.workspaces@.len() && 0 <= j < r.workspaces@[i].tabs@.len() implies ({
        let tab = #[trigger] r.workspaces@[i].tabs@[j];
        !tab.zoomed && tab.custom_name is None && tab.number == j + 1
    }) by {
        assert(r@.workspaces[i] == r.workspaces@[i]@);
        assert(r@.workspaces[i].tabs[j] == r.workspaces@[i].tabs@[j]@);
        assert(rows.workspaces[i].tabs[j].number == j + 1);
    }
}

/// What the text of a status stands for: `working` and `blocked` for what they say,
/// `idle` and `done` for an idle agent, and every other text for an unknown state.
pub proof fn law_states_follow_the_status(status: Seq<char>)
    ensures
        state_of_status(status) is Working <==> status == "working"@,
        state_of_status(status) is Idle <==> status == "idle"@ || status == "done"@,
        state_of_status(status) is Blocked <==> status == "blocked"@,
{
    reveal_strlit("working");
    reveal_strlit("idle");
    reveal_strlit("done");
    reveal_strlit("blocked");
    assert("working"@[0] == 'w' && "idle"@[0] == 'i' && "done"@[0] == 'd' && "blocked"@[0] == 'b');
}

/// A terminal says what its pane says: the directory as it is and none where there is
/// none, the state of its status, the agent that its label stands for, and the name
/// that is shown of it, both as its label and as its agent's name. No pane id of the
/// remote is retained.
pub proof fn law_terminals_say_what_their_panes_say(
    origin: OriginView,
    snap: SnapshotView,
    agents: AgentsView,
    block: u64,
    m: int,
)
    requires
        0 <= m < kept_panes(snap).len(),
    ensures
        rows_of(origin, snap, agents, block).terminals.len() == kept_panes(snap).len(),
        ({
            let pane = kept_panes(snap)[m];
            let row = rows_of(origin, snap, agents, block).terminals[m];
            &&& row.0 == namespaced(origin.key, trimmed(pane.terminal_id))
            &&& row.1.id == row.0
            &&& pane.cwd matches Some(cwd) ==> row.1.cwd == cwd
            &&& pane.cwd is None ==> row.1.cwd.len() == 0
            &&& row.1.state == state_of_status(pane.agent_status)
            &&& pane.agent matches Some(label) ==> row.1.detected_agent == agent_named(
                agents,
                label,
            )
            &&& pane.agent is None ==> row.1.detected_agent is None
            &&& row.1.manual_label == display_name_of(pane)
            &&& row.1.agent_name == display_name_of(pane)
            &&& row.1.foreign_remote_pane_id is None
        }),
{
}

/// Who gets a row: every pane of the snapshot that names a workspace and a tab and has
/// a terminal id of more than white space, in order, and no other.
pub proof fn law_who_gets_a_row(snap: SnapshotView)
    ensures
        kept_panes(snap) == pane_universe(snap).filter(
            |pane: RemotePaneView|
                pane.workspace_id.len() > 0 && pane.tab_id.len() > 0 && exists|i: int|
                    0 <= i < pane.terminal_id.len() && !white_space(#[trigger] pane.terminal_id[i]),
        ),
{
    let keep = |pane: RemotePaneView| survives(pane);
    let said = |pane: RemotePaneView|
        pane.workspace_id.len() > 0 && pane.tab_id.len() > 0 && exists|i: int|
            0 <= i < pane.terminal_id.len() && !white_space(#[trigger] pane.terminal_id[i]);
    assert forall|pane: RemotePaneView| #[trigger] keep(pane) == #[trigger] said(pane) by {
        law_trimming_drops_outer_space_only(pane.terminal_id);
    }
    assert(keep =~= said);
}

/// The name of a workspace starts with its origin's label, or with its own id where
/// the label is blank; behind a slash follows the remote's own label, trimmed, where
/// that is not blank.
pub proof fn law_workspaces_are_named_after_their_origin(
    label: Seq<char>,
    entry: Option<RemoteWorkspaceView>,
    id: Seq<char>,
)
    ensures
        ({
            let name = workspace_name(label, entry, id);
            let base = if trimmed(label).len() > 0 {
                label
            } else {
                id
            };
            let own = entry is Some && trimmed(entry->0.label).len() > 0;
            &&& base.is_prefix_of(name)
            &&& !own ==> name.len() == base.len()
            &&& own ==> {
                &&& name.len() == base.len() + 1 + trimmed(entry->0.label).len()
                &&& name[base.len() as int] == '/'
                &&& trimmed(entry->0.label).is_suffix_of(name)
            }
        }),
{
    reveal_strlit("/");
}

/// A workspace is described by the first entry of the snapshot that has its id, and
/// by none where none has.
pub proof fn law_the_first_entry_describes_a_workspace(
    entries: Seq<RemoteWorkspaceView>,
    id: Seq<char>,
    k: int,
)
    ensures
        0 <= k < entries.len() && entries[k].workspace_id == id && (forall|i: int|
            0 <= i < k ==> (#[trigger] entries[i]).workspace_id != id) ==> workspace_entry(
            entries,
            id,
        ) == Some(entries[k]),
        (forall|i: int| 0 <= i < entries.len() ==> (#[trigger] entries[i]).workspace_id != id)
            ==> workspace_entry(entries, id) is None,
{
    let ids = entries.map_values(|entry: RemoteWorkspaceView| entry.workspace_id);
    lemma_first_index(ids, id);
    if 0 <= k < entries.len() && entries[k].workspace_id == id && (forall|i: int|
        0 <= i < k ==> (#[trigger] entries[i]).workspace_id != id) {
        assert forall|i: int| 0 <= i < k implies ids[i] != id by {
            assert(entries[i].workspace_id != id);
        }
        assert(ids[k] == id);
        lemma_is_first_index(ids, id, k);
    }
}

/// What a workspace says of itself: its id and its name, the directory of its first
/// pane, and the next numbers to give, one more than it has tabs and panes.
pub proof fn law_workspaces_say_what_their_panes_say(
    origin: OriginView,
    snap: SnapshotView,
    agents: AgentsView,
    block: u64,
    i: int,
)
    requires
        snap.numberable(),
        0 <= i < tree_of(origin, snap).len(),
    ensures
        rows_of(origin, snap, agents, block).workspaces.len() == tree_of(origin, snap).len(),
        ({
            let group = tree_of(origin, snap)[i];
            let workspace = rows_of(origin, snap, agents, block).workspaces[i];
            &&& workspace.id == namespaced(origin.key, group.id)
            &&& workspace.custom_name == Some(
                workspace_name(
                    origin.label,
                    workspace_entry(snap.workspaces, group.id),
                    group.id,
                ),
            )
            &&& group.identity_cwd matches Some(cwd) ==> workspace.identity_cwd == cwd
            &&& group.identity_cwd is None ==> workspace.identity_cwd.len() == 0
            &&& workspace.tabs.len() == group.tabs.len()
            &&& workspace.next_public_tab_number == workspace.tabs.len() + 1
            &&& workspace.next_public_pane_number == pane_count(workspace.tabs) + 1
        }),
{
    let tree = tree_of(origin, snap);
    let row = placed_panes(origin.key, kept_panes(snap));
    law_tree_is_well_formed(row);
    assert(tree[i].tabs.len() > 0);
    lemma_tab_fits(origin, snap, agents, block, i, 0);
    lemma_pane_count(tree[i].tabs, block_start(block) + panes_in_workspaces(tree.take(i)));
}

/// The active tab is the one that the snapshot's entry for the workspace names, and
/// the first where the entry names none of the tabs, or there is no entry.
pub proof fn law_the_named_tab_is_active(
    origin: OriginView,
    snap: SnapshotView,
    agents: AgentsView,
    block: u64,
    i: int,
)
    requires
        0 <= i < tree_of(origin, snap).len(),
    ensures
        ({
            let group = tree_of(origin, snap)[i];
            let workspace = rows_of(origin, snap, agents, block).workspaces[i];
            let entry = workspace_entry(snap.workspaces, group.id);
            &&& entry is None ==> workspace.active_tab == 0
            &&& entry matches Some(entry) ==> {
                &&& entry.active_tab_id.len() == 0 ==> workspace.active_tab == 0
                &&& forall|j: int|
                    0 <= j < group.tabs.len() && (#[trigger] group.tabs[j]).id
                        == entry.active_tab_id && entry.active_tab_id.len() > 0
                        ==> workspace.active_tab == j
                &&& (forall|j: int|
                    0 <= j < group.tabs.len() ==> (#[trigger] group.tabs[j]).id
                        != entry.active_tab_id) ==> workspace.active_tab == 0
            }
        }),
{
    let tree = tree_of(origin, snap);
    let group = tree[i];
    let row = placed_panes(origin.key, kept_panes(snap));
    let mine = in_workspace(row, group.id);
    let ids = ids_of_tabs(group.tabs);
    assert(ids == tab_ids(mine));
    lemma_first_seen(mine.map_values(|p: PlacedPane| p.tab_id));
    if let Some(entry) = workspace_entry(snap.workspaces, group.id) {
        lemma_first_index(ids, entry.active_tab_id);
        assert forall|j: int|
            0 <= j < group.tabs.len() && (#[trigger] group.tabs[j]).id
                == entry.active_tab_id implies first_index(ids, entry.active_tab_id) == j by {
            assert(ids[j] == entry.active_tab_id);
        }
    }
}

/// The panes of a tab are tiled in order: their ids follow one another from the root
/// on, each is split off the one before it, side by side, the last has the focus, and
/// the panes show the terminals of the snapshot's panes of that tab, one after the
/// other.
pub proof fn law_panes_are_tiled_in_order(
    origin: OriginView,
    snap: SnapshotView,
    agents: AgentsView,
    block: u64,
    i: int,
    j: int,
)
    requires
        snap.numberable(),
        0 <= i < tree_of(origin, snap).len(),
        0 <= j < tree_of(origin, snap)[i].tabs.len(),
    ensures
        ({
            let group = tree_of(origin, snap)[i];
            let shown = kept_panes(snap).filter(
                |pane: RemotePaneView|
                    pane.workspace_id == group.id && pane.tab_id == group.tabs[j].id,
            );
            let tab = rows_of(origin, snap, agents, block).workspaces[i].tabs[j];
            &&& tab.layout.root == tab.root_pane
            &&& tab.layout.splits.len() + 1 == shown.len()
            &&& tab.layout.focused == tab.root_pane + shown.len() - 1
            &&& forall|k: int|
                0 <= k < tab.layout.splits.len() ==> {
                    let split = #[trigger] tab.layout.splits[k];
                    &&& split.from == tab.root_pane + k
                    &&& split.direction is Horizontal
                    &&& split.pane == tab.root_pane + k + 1
                }
            &&& forall|pane: PaneId| #[trigger]
                tab.panes.contains_key(pane) <==> tab.root_pane <= pane < tab.root_pane
                    + shown.len()
            &&& forall|pane: PaneId| #[trigger]
                tab.panes.contains_key(pane) ==> tab.panes[pane] == namespaced(
                    origin.key,
                    trimmed(shown[pane - tab.root_pane].terminal_id),
                )
        }),
{
    let group = tree_of(origin, snap)[i];
    let kept = kept_panes(snap);
    let row = placed_panes(origin.key, kept);
    let tab = group.tabs[j].id;
    let mine = |pane: RemotePaneView| pane.workspace_id == group.id && pane.tab_id == tab;
    let theirs = |pane: PlacedPane| pane.workspace_id == group.id && pane.tab_id == tab;
    law_tree_is_well_formed(row);
    lemma_tab_fits(origin, snap, agents, block, i, j);
    law_tabs_show_their_panes_in_order(row, i, j);
    lemma_filter_placed(origin.key, kept, mine, theirs);
    assert(group.tabs[j].terminals.len() > 0);
    let shown = kept.filter(mine);
    assert(row.filter(theirs) == placed_panes(origin.key, shown));
    assert(group.tabs[j].terminals == placed_panes(origin.key, shown).map_values(
        |pane: PlacedPane| pane.terminal,
    ));
}

/// Panes keep their order in the tree.
proof fn lemma_filter_placed(
    key: Seq<char>,
    panes: Seq<RemotePaneView>,
    mine: spec_fn(RemotePaneView) -> bool,
    theirs: spec_fn(PlacedPane) -> bool,
)
    requires
        forall|pane: RemotePaneView| #[trigger] mine(pane) == theirs(placed(key, pane)),
    ensures
        placed_panes(key, panes).filter(theirs) == placed_panes(key, panes.filter(mine)),
    decreases panes.len(),
{
    if panes.len() == 0 {
        reveal(Seq::filter);
        assert(placed_panes(key, panes) == Seq::<PlacedPane>::empty());
    } else {
        let rest = panes.drop_last();
        let last = panes.last();
        assert(panes == rest.push(last));
        assert(placed_panes(key, panes) == placed_panes(key, rest).push(placed(key, last)));
        lemma_filter_placed(key, rest, mine, theirs);
        lemma_filter_push(rest, last, mine);
        lemma_filter_push(placed_panes(key, rest), placed(key, last), theirs);
        assert(placed_panes(key, rest.filter(mine).push(last)) == placed_panes(
            key,
            rest.filter(mine),
        ).push(placed(key, last)));
    }
}

/// Pane ids are taken from the start of the block on, without gaps: a tab starts
/// behind as many panes as stand in the workspaces and tabs before it. Public numbers
/// count the panes of a workspace in the same order.
pub proof fn law_pane_ids_are_taken_in_order(
    origin: OriginView,
    snap: SnapshotView,
    agents: AgentsView,
    block: u64,
    i: int,
    j: int,
    pane: PaneId,
)
    requires
        snap.numberable(),
        0 <= i < rows_of(origin, snap, agents, block).workspaces.len(),
        0 <= j < rows_of(origin, snap, agents, block).workspaces[i].tabs.len(),
    ensures
        ({
            let rows = rows_of(origin, snap, agents, block);
            let workspace = rows.workspaces[i];
            let tab = workspace.tabs[j];
            let numbers = workspace.public_pane_numbers;
            &&& tab.root_pane == block * 0x1_0000_0000_0000_0000 + pane_total(
                rows.workspaces.take(i),
            ) + pane_count(workspace.tabs.take(j))
            &&& tab.panes.contains_key(pane) ==> numbers.contains_key(pane) && numbers[pane]
                == pane_count(workspace.tabs.take(j)) + (pane - tab.root_pane) + 1
        }),
{
    let rows = rows_of(origin, snap, agents, block);
    let tree = tree_of(origin, snap);
    let tabs = tree[i].tabs;
    let start = block_start(block) + panes_in_workspaces(tree.take(i));
    lemma_tab_fits(origin, snap, agents, block, i, j);
    lemma_kept_panes_len(snap);
    law_tree_counts_every_pane(placed_panes(origin.key, kept_panes(snap)));
    lemma_panes_in_workspaces_take(tree, i);
    lemma_panes_in_tabs_take(tabs, j);
    assert(block * PANE_BLOCK <= u64::MAX * PANE_BLOCK);
    lemma_pane_total(origin, snap, tree.take(i), block_start(block));
    assert forall|k: int| 0 <= k < i implies tree.take(i).take(k) == #[trigger] tree.take(k) by {
    }
    assert(rows.workspaces.take(i) == workspaces_of(
        origin,
        snap.workspaces,
        tree.take(i),
        block_start(block),
    ));
    lemma_pane_count(tabs.take(j), start);
    assert forall|k: int| 0 <= k < j implies tabs.take(j).take(k) == #[trigger] tabs.take(k) by {
    }
    assert(rows.workspaces[i].tabs.take(j) == tabs_of(tabs.take(j), start));
}

/// The label parser is asked for the label of every pane that has one, in order, and for
/// nothing else.
pub proof fn law_every_label_is_asked_for(panes: Seq<RemotePaneView>)
    ensures
        labels_of(panes) == panes.filter(|pane: RemotePaneView| pane.agent is Some).map_values(
            |pane: RemotePaneView| pane.agent->0,
        ),
    decreases panes.len(),
{
    let named = |pane: RemotePaneView| pane.agent is Some;
    let label = |pane: RemotePaneView| pane.agent->0;
    if panes.len() == 0 {
        reveal(Seq::filter);
        assert(panes.filter(named).map_values(label) == Seq::<Seq<char>>::empty());
    } else {
        let rest = panes.drop_last();
        assert(panes == rest.push(panes.last()));
        law_every_label_is_asked_for(rest);
        lemma_filter_push(rest, panes.last(), named);
        assert(rest.filter(named).push(panes.last()).map_values(label) == rest.filter(
            named,
        ).map_values(label).push(label(panes.last())));
    }
}

} // verus!
