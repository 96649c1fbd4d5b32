//! The workspace and tab tree of a row of panes.
//!
//! A remote describes its panes as one flat row; each pane names its workspace
//! and its tab. Here the row is gathered into workspaces and tabs, both in the
//! order in which the row first names them.
use vstd::prelude::*;

use crate::seqs::{
    first_index, first_seen, law_first_seen_keeps_the_order, lemma_filter_contains,
    lemma_filter_first, lemma_filter_push, lemma_filter_twice, lemma_first_index, lemma_first_seen,
    lemma_first_seen_push, lemma_is_first_index,
};
use crate::terminal::{id_texts, TerminalId};
use crate::text::text_or_none;

verus! {

/// A pane's place in the tree: the ids of its workspace and tab, the directory
/// it runs in, and the terminal it shows.
#[verifier::ext_equal]
pub struct PlacedPane {
    pub workspace_id: Seq<char>,
    pub tab_id: Seq<char>,
    pub cwd: Option<Seq<char>>,
    pub terminal: Seq<char>,
}

/// A tab: its id and its terminals.
#[verifier::ext_equal]
pub struct TabGroup {
    pub id: Seq<char>,
    pub terminals: Seq<Seq<char>>,
}

/// A workspace: its id, the directory of its first pane, and its tabs.
#[verifier::ext_equal]
pub struct WorkspaceGroup {
    pub id: Seq<char>,
    pub identity_cwd: Option<Seq<char>>,
    pub tabs: Seq<TabGroup>,
}

/// The panes of one workspace.
pub open spec fn in_workspace(panes: Seq<PlacedPane>, id: Seq<char>) -> Seq<PlacedPane> {
    panes.filter(|pane: PlacedPane| pane.workspace_id == id)
}

/// The panes of one tab.
pub open spec fn in_tab(panes: Seq<PlacedPane>, id: Seq<char>) -> Seq<PlacedPane> {
    panes.filter(|pane: PlacedPane| pane.tab_id == id)
}

/// The terminals of a row of panes.
pub open spec fn terminals_of(panes: Seq<PlacedPane>) -> Seq<Seq<char>> {
    panes.map_values(|pane: PlacedPane| pane.terminal)
}

/// The workspaces that a row of panes names.
pub open spec fn workspace_ids(panes: Seq<PlacedPane>) -> Seq<Seq<char>> {
    first_seen(panes.map_values(|pane: PlacedPane| pane.workspace_id))
}

/// The tabs that a row of panes names.
pub open spec fn tab_ids(panes: Seq<PlacedPane>) -> Seq<Seq<char>> {
    first_seen(panes.map_values(|pane: PlacedPane| pane.tab_id))
}

/// The tab with an id, out of the panes of its workspace.
pub open spec fn tab_group(panes: Seq<PlacedPane>, id: Seq<char>) -> TabGroup {
    TabGroup { id, terminals: terminals_of(in_tab(panes, id)) }
}

/// The tabs of a workspace, out of its panes.
pub open spec fn tab_groups(panes: Seq<PlacedPane>) -> Seq<TabGroup> {
    tab_ids(panes).map_values(|id: Seq<char>| tab_group(panes, id))
}

/// The workspace with an id, out of a row of panes.
pub open spec fn workspace_group(panes: Seq<PlacedPane>, id: Seq<char>) -> WorkspaceGroup {
    let mine = in_workspace(panes, id);
    WorkspaceGroup { id, identity_cwd: mine[0].cwd, tabs: tab_groups(mine) }
}

/// The tree of a row of panes.
pub open spec fn workspace_groups(panes: Seq<PlacedPane>) -> Seq<WorkspaceGroup> {
    workspace_ids(panes).map_values(|id: Seq<char>| workspace_group(panes, id))
}

/// The number of panes in a row of tabs.
pub open spec fn panes_in_tabs(tabs: Seq<TabGroup>) -> nat
    decreases tabs.len(),
{
    if tabs.len() == 0 {
        0
    } else {
        panes_in_tabs(tabs.drop_last()) + tabs.last().terminals.len()
    }
}

/// The number of panes in a row of workspaces.
pub open spec fn panes_in_workspaces(groups: Seq<WorkspaceGroup>) -> nat
    decreases groups.len(),
{
    if groups.len() == 0 {
        0
    } else {
        panes_in_workspaces(groups.drop_last()) + panes_in_tabs(groups.last().tabs)
    }
}

// ---------------------------------------------------------------------------
// One pane more

/// The ids of a row of tabs.
pub open spec fn ids_of_tabs(tabs: Seq<TabGroup>) -> Seq<Seq<char>> {
    tabs.map_values(|tab: TabGroup| tab.id)
}

/// The ids of a row of workspaces.
pub open spec fn ids_of_workspaces(groups: Seq<WorkspaceGroup>) -> Seq<Seq<char>> {
    groups.map_values(|group: WorkspaceGroup| group.id)
}

/// A row of tabs with one terminal more: at the end of its tab, or in a new tab
/// at the end of the row.
pub open spec fn with_terminal(tabs: Seq<TabGroup>, id: Seq<char>, terminal: Seq<char>) -> Seq<
    TabGroup,
> {
    let slot = first_index(ids_of_tabs(tabs), id);
    if slot < tabs.len() {
        tabs.update(slot, TabGroup { id, terminals: tabs[slot].terminals.push(terminal) })
    } else {
        tabs.push(TabGroup { id, terminals: seq![terminal] })
    }
}

/// A row of workspaces with one pane more.
pub open spec fn with_pane(groups: Seq<WorkspaceGroup>, pane: PlacedPane) -> Seq<WorkspaceGroup> {
    let slot = first_index(ids_of_workspaces(groups), pane.workspace_id);
    if slot < groups.len() {
        let group = groups[slot];
        groups.update(
            slot,
            WorkspaceGroup {
                id: group.id,
                identity_cwd: group.identity_cwd,
                tabs: with_terminal(group.tabs, pane.tab_id, pane.terminal),
            },
        )
    } else {
        groups.push(
            WorkspaceGroup {
                id: pane.workspace_id,
                identity_cwd: pane.cwd,
                tabs: with_terminal(Seq::empty(), pane.tab_id, pane.terminal),
            },
        )
    }
}

/// The tabs of a workspace with one pane more.
pub proof fn lemma_tab_groups_push(panes: Seq<PlacedPane>, pane: PlacedPane)
    ensures
        tab_groups(panes.push(pane)) == with_terminal(
            tab_groups(panes),
            pane.tab_id,
            pane.terminal,
        ),
{
    let names = panes.map_values(|p: PlacedPane| p.tab_id);
    let more = panes.push(pane);
    assert(more.map_values(|p: PlacedPane| p.tab_id) == names.push(pane.tab_id));
    lemma_first_seen(names);
    lemma_first_seen_push(names, pane.tab_id);
    let ids = tab_ids(panes);
    let tabs = tab_groups(panes);
    assert(ids_of_tabs(tabs) == ids);
    lemma_first_index(ids, pane.tab_id);
    let slot = first_index(ids, pane.tab_id);
    assert forall|id: Seq<char>| #[trigger] tab_group(more, id) == if id == pane.tab_id {
        TabGroup { id, terminals: tab_group(panes, id).terminals.push(pane.terminal) }
    } else {
        tab_group(panes, id)
    } by {
        lemma_filter_push(panes, pane, |p: PlacedPane| p.tab_id == id);
        if id == pane.tab_id {
            assert(in_tab(more, id) == in_tab(panes, id).push(pane));
            assert(terminals_of(in_tab(panes, id).push(pane)) == terminals_of(
                in_tab(panes, id),
            ).push(pane.terminal));
        }
    }
    if slot < ids.len() {
        assert(ids.contains(pane.tab_id));
        assert(tab_ids(more) == ids);
        assert(tab_groups(more) == with_terminal(tabs, pane.tab_id, pane.terminal)) by {
            assert forall|i: int| 0 <= i < ids.len() implies #[trigger] tab_groups(more)[i]
                == with_terminal(tabs, pane.tab_id, pane.terminal)[i] by {
                if i != slot {
                    assert(ids[i] != ids[slot]);
                }
            }
        }
    } else {
        assert(!ids.contains(pane.tab_id));
        assert(tab_ids(more) == ids.push(pane.tab_id));
        assert(in_tab(panes, pane.tab_id).len() == 0) by {
            if in_tab(panes, pane.tab_id).len() > 0 {
                let first = in_tab(panes, pane.tab_id)[0];
                lemma_filter_contains(panes, |p: PlacedPane| p.tab_id == pane.tab_id, first);
                assert(in_tab(panes, pane.tab_id).contains(first));
                let k = choose|k: int| 0 <= k < panes.len() && panes[k] == first;
                assert(names[k] == pane.tab_id);
                assert(names.contains(pane.tab_id));
            }
        }
        assert(tab_group(panes, pane.tab_id).terminals.push(pane.terminal) == seq![pane.terminal]);
        assert forall|i: int| 0 <= i < ids.len() + 1 implies #[trigger] tab_groups(more)[i]
            == with_terminal(tabs, pane.tab_id, pane.terminal)[i] by {
            if i < ids.len() {
                assert(ids.contains(ids[i]));
            }
        }
        assert(tab_groups(more) == with_terminal(tabs, pane.tab_id, pane.terminal));
    }
}

/// The tree of a row with one pane more.
pub proof fn lemma_workspace_groups_push(panes: Seq<PlacedPane>, pane: PlacedPane)
    ensures
        workspace_groups(panes.push(pane)) == with_pane(workspace_groups(panes), pane),
{
    let names = panes.map_values(|p: PlacedPane| p.workspace_id);
    let more = panes.push(pane);
    assert(more.map_values(|p: PlacedPane| p.workspace_id) == names.push(pane.workspace_id));
    lemma_first_seen(names);
    lemma_first_seen_push(names, pane.workspace_id);
    let ids = workspace_ids(panes);
    let groups = workspace_groups(panes);
    assert(ids_of_workspaces(groups) == ids);
    lemma_first_index(ids, pane.workspace_id);
    let slot = first_index(ids, pane.workspace_id);
    let mine = in_workspace(panes, pane.workspace_id);
    lemma_tab_groups_push(mine, pane);
    assert forall|id: Seq<char>| #[trigger] in_workspace(more, id) == if id == pane.workspace_id {
        in_workspace(panes, id).push(pane)
    } else {
        in_workspace(panes, id)
    } by {
        lemma_filter_push(panes, pane, |p: PlacedPane| p.workspace_id == id);
    }
    lemma_names_own_panes(panes, pane.workspace_id);
    if slot < ids.len() {
        assert(ids.contains(pane.workspace_id));
        assert(workspace_ids(more) == ids);
        assert(mine.push(pane)[0] == mine[0]);
        assert forall|i: int| 0 <= i < ids.len() implies #[trigger] workspace_groups(more)[i]
            == with_pane(groups, pane)[i] by {
            assert(workspace_groups(more)[i] == workspace_group(more, ids[i]));
            assert(groups[i] == workspace_group(panes, ids[i]));
            if i != slot {
                assert(ids[i] != ids[slot]);
                assert(in_workspace(more, ids[i]) == in_workspace(panes, ids[i]));
            } else {
                assert(in_workspace(more, ids[i]) == mine.push(pane));
            }
        }
        assert(workspace_groups(more) == with_pane(groups, pane));
    } else {
        assert(!ids.contains(pane.workspace_id));
        assert(workspace_ids(more) == ids.push(pane.workspace_id));
        assert(mine.len() == 0);
        assert(mine == Seq::<PlacedPane>::empty());
        assert(tab_groups(mine) == Seq::<TabGroup>::empty()) by {
            assert(mine.map_values(|p: PlacedPane| p.tab_id) == Seq::<Seq<char>>::empty());
        }
        assert forall|i: int| 0 <= i < ids.len() + 1 implies #[trigger] workspace_groups(more)[i]
            == with_pane(groups, pane)[i] by {
            if i < ids.len() {
                assert(ids.contains(ids[i]));
                assert(workspace_groups(more)[i] == workspace_group(more, ids[i]));
                assert(groups[i] == workspace_group(panes, ids[i]));
                assert(in_workspace(more, ids[i]) == in_workspace(panes, ids[i]));
            } else {
                assert(in_workspace(more, pane.workspace_id) == mine.push(pane));
                assert(mine.push(pane)[0] == pane);
            }
        }
        assert(workspace_groups(more) == with_pane(groups, pane));
    }
}

/// A workspace has panes exactly where the row names it.
pub proof fn lemma_names_own_panes(panes: Seq<PlacedPane>, id: Seq<char>)
    ensures
        workspace_ids(panes).contains(id) <==> in_workspace(panes, id).len() > 0,
{
    let names = panes.map_values(|p: PlacedPane| p.workspace_id);
    let keep = |p: PlacedPane| p.workspace_id == id;
    lemma_first_seen(names);
    if in_workspace(panes, id).len() > 0 {
        let first = in_workspace(panes, id)[0];
        lemma_filter_contains(panes, keep, first);
        assert(in_workspace(panes, id).contains(first));
        let k = choose|k: int| 0 <= k < panes.len() && panes[k] == first;
        assert(names[k] == id);
        assert(names.contains(id));
    }
    if names.contains(id) {
        let k = choose|k: int| 0 <= k < names.len() && names[k] == id;
        assert(panes.contains(panes[k]));
        lemma_filter_contains(panes, keep, panes[k]);
    }
}

/// One terminal more is one pane more.
proof fn lemma_panes_in_tabs_grow(tabs: Seq<TabGroup>, id: Seq<char>, terminal: Seq<char>)
    ensures
        panes_in_tabs(with_terminal(tabs, id, terminal)) == panes_in_tabs(tabs) + 1,
{
    let slot = first_index(ids_of_tabs(tabs), id);
    lemma_first_index(ids_of_tabs(tabs), id);
    if slot < tabs.len() {
        lemma_panes_in_tabs_update(
            tabs,
            slot,
            TabGroup { id, terminals: tabs[slot].terminals.push(terminal) },
        );
    } else {
        let more = with_terminal(tabs, id, terminal);
        assert(more.drop_last() == tabs);
    }
}

proof fn lemma_panes_in_tabs_update(tabs: Seq<TabGroup>, slot: int, tab: TabGroup)
    requires
        0 <= slot < tabs.len(),
    ensures
        panes_in_tabs(tabs.update(slot, tab)) == panes_in_tabs(tabs) - tabs[slot].terminals.len()
            + tab.terminals.len(),
    decreases tabs.len(),
{
    let more = tabs.update(slot, tab);
    if slot == tabs.len() - 1 {
        assert(more.drop_last() == tabs.drop_last());
    } else {
        assert(more.drop_last() == tabs.drop_last().update(slot, tab));
        lemma_panes_in_tabs_update(tabs.drop_last(), slot, tab);
    }
}

proof fn lemma_panes_in_workspaces_update(
    groups: Seq<WorkspaceGroup>,
    slot: int,
    group: WorkspaceGroup,
)
    requires
        0 <= slot < groups.len(),
    ensures
        panes_in_workspaces(groups.update(slot, group)) == panes_in_workspaces(groups)
            - panes_in_tabs(groups[slot].tabs) + panes_in_tabs(group.tabs),
    decreases groups.len(),
{
    let more = groups.update(slot, group);
    if slot == groups.len() - 1 {
        assert(more.drop_last() == groups.drop_last());
    } else {
        assert(more.drop_last() == groups.drop_last().update(slot, group));
        lemma_panes_in_workspaces_update(groups.drop_last(), slot, group);
    }
}

/// One pane more in the row is one pane more in the tree.
pub proof fn lemma_with_pane_grows(groups: Seq<WorkspaceGroup>, pane: PlacedPane)
    ensures
        panes_in_workspaces(with_pane(groups, pane)) == panes_in_workspaces(groups) + 1,
{
    let slot = first_index(ids_of_workspaces(groups), pane.workspace_id);
    lemma_first_index(ids_of_workspaces(groups), pane.workspace_id);
    let more = with_pane(groups, pane);
    if slot < groups.len() {
        lemma_panes_in_tabs_grow(groups[slot].tabs, pane.tab_id, pane.terminal);
        lemma_panes_in_workspaces_update(groups, slot, more[slot]);
    } else {
        lemma_panes_in_tabs_grow(Seq::empty(), pane.tab_id, pane.terminal);
        assert(more.drop_last() == groups);
    }
}

/// The tree loses no pane and doubles none: it has as many panes as the row.
pub proof fn law_tree_counts_every_pane(panes: Seq<PlacedPane>)
    ensures
        panes_in_workspaces(workspace_groups(panes)) == panes.len(),
    decreases panes.len(),
{
    if panes.len() == 0 {
        assert(workspace_groups(panes) == Seq::<WorkspaceGroup>::empty()) by {
            assert(panes.map_values(|p: PlacedPane| p.workspace_id) == Seq::<Seq<char>>::empty());
        }
    } else {
        let rest = panes.drop_last();
        assert(panes == rest.push(panes.last()));
        law_tree_counts_every_pane(rest);
        lemma_workspace_groups_push(rest, panes.last());
        lemma_with_pane_grows(workspace_groups(rest), panes.last());
    }
}

/// Every workspace of the tree has a tab, every tab has a pane, and no id
/// occurs twice among the workspaces or among the tabs of one workspace.
pub proof fn law_tree_is_well_formed(panes: Seq<PlacedPane>)
    ensures
        ids_of_workspaces(workspace_groups(panes)).no_duplicates(),
        forall|i: int|
            0 <= i < workspace_groups(panes).len() ==> (#[trigger] workspace_groups(
                panes,
            )[i]).tabs.len() > 0,
        forall|i: int|
            0 <= i < workspace_groups(panes).len() ==> ids_of_tabs(
                (#[trigger] workspace_groups(panes)[i]).tabs,
            ).no_duplicates(),
        forall|i: int, j: int|
            0 <= i < workspace_groups(panes).len() && 0 <= j < workspace_groups(panes)[i].tabs.len()
                ==> (#[trigger] workspace_groups(panes)[i].tabs[j]).terminals.len() > 0,
{
    let ids = workspace_ids(panes);
    let groups = workspace_groups(panes);
    lemma_first_seen(panes.map_values(|p: PlacedPane| p.workspace_id));
    assert(ids_of_workspaces(groups) == ids);
    assert forall|i: int| 0 <= i < groups.len() implies (#[trigger] groups[i]).tabs.len() > 0
        && ids_of_tabs(groups[i].tabs).no_duplicates() && forall|j: int|
        0 <= j < groups[i].tabs.len() ==> (#[trigger] groups[i].tabs[j]).terminals.len() > 0 by {
        let mine = in_workspace(panes, ids[i]);
        let names = mine.map_values(|p: PlacedPane| p.tab_id);
        assert(ids.contains(ids[i]));
        lemma_names_own_panes(panes, ids[i]);
        lemma_first_seen(names);
        assert(names.contains(names[0]));
        assert(tab_ids(mine).contains(names[0]));
        assert(ids_of_tabs(groups[i].tabs) == tab_ids(mine));
        assert forall|j: int| 0 <= j < groups[i].tabs.len() implies (
        #[trigger] groups[i].tabs[j]).terminals.len() > 0 by {
            let id = tab_ids(mine)[j];
            assert(tab_ids(mine).contains(id));
            let k = choose|k: int| 0 <= k < names.len() && names[k] == id;
            assert(mine.contains(mine[k]));
            lemma_filter_contains(mine, |p: PlacedPane| p.tab_id == id, mine[k]);
        }
    }
}

// ---------------------------------------------------------------------------
// Gathering

/// Accumulates one tab.
pub struct TabAccum {
    pub id: String,
    pub terminals: Vec<TerminalId>,
}

impl View for TabAccum {
    type V = TabGroup;

    open spec fn view(&self) -> TabGroup {
        TabGroup { id: self.id@, terminals: id_texts(self.terminals@) }
    }
}

/// Each of a row of tabs.
pub open spec fn tab_accum_views(tabs: Seq<TabAccum>) -> Seq<TabGroup> {
    tabs.map_values(|tab: TabAccum| tab@)
}

/// Accumulates one workspace's tabs in first-seen order.
pub struct WorkspaceAccum {
    pub id: String,
    pub identity_cwd: Option<String>,
    pub tabs: Vec<TabAccum>,
}

impl View for WorkspaceAccum {
    type V = WorkspaceGroup;

    open spec fn view(&self) -> WorkspaceGroup {
        WorkspaceGroup {
            id: self.id@,
            identity_cwd: text_or_none(self.identity_cwd),
            tabs: tab_accum_views(self.tabs@),
        }
    }
}

/// Each of a row of workspaces.
pub open spec fn workspace_accum_views(groups: Seq<WorkspaceAccum>) -> Seq<WorkspaceGroup> {
    groups.map_values(|group: WorkspaceAccum| group@)
}

impl WorkspaceAccum {
    /// A workspace without tabs.
    pub fn new(id: String, identity_cwd: Option<String>) -> (r: WorkspaceAccum)
        ensures
            r@ == (WorkspaceGroup {
                id: id@,
                identity_cwd: text_or_none(identity_cwd),
                tabs: Seq::empty(),
            }),
    {
        let r = WorkspaceAccum { id, identity_cwd, tabs: Vec::new() };
        assert(r@.tabs == Seq::<TabGroup>::empty());
        r
    }

    /// Adds a pane's terminal to its tab.
    pub fn push_pane(&mut self, tab_id: &str, terminal_id: TerminalId)
        ensures
            final(self)@ == (WorkspaceGroup {
                id: old(self)@.id,
                identity_cwd: old(self)@.identity_cwd,
                tabs: with_terminal(old(self)@.tabs, tab_id@, terminal_id@),
            }),
    {
        let ghost before = self@.tabs;
        let wanted = tab_id.to_owned();
        let mut slot: usize = 0;
        while slot < self.tabs.len() && self.tabs[slot].id != wanted
            invariant
                wanted@ == tab_id@,
                before == tab_accum_views(self.tabs@),
                slot <= self.tabs@.len(),
                forall|i: int| 0 <= i < slot ==> ids_of_tabs(before)[i] != tab_id@,
            decreases self.tabs@.len() - slot,
        {
            slot = slot + 1;
        }
        proof {
            lemma_is_first_index(ids_of_tabs(before), tab_id@, slot as int);
        }
        if slot < self.tabs.len() {
            self.tabs[slot].terminals.push(terminal_id);
            proof {
                let terminals = before[slot as int].terminals;
                assert(id_texts(self.tabs@[slot as int].terminals@) == terminals.push(
                    terminal_id@,
                ));
                assert(self@.tabs == with_terminal(before, tab_id@, terminal_id@));
            }
        } else {
            let mut terminals: Vec<TerminalId> = Vec::new();
            terminals.push(terminal_id);
            assert(id_texts(terminals@) == seq![terminal_id@]);
            self.tabs.push(TabAccum { id: wanted, terminals });
            assert(self@.tabs == with_terminal(before, tab_id@, terminal_id@));
        }
    }
}

/// Adds a pane to the tree: to its workspace, or to a new one that takes the
/// pane's directory for its own.
pub fn gather_pane(
    groups: &mut Vec<WorkspaceAccum>,
    workspace_id: &String,
    tab_id: &String,
    cwd: Option<String>,
    terminal_id: TerminalId,
)
    ensures
        workspace_accum_views(final(groups)@) == with_pane(
            workspace_accum_views(old(groups)@),
            PlacedPane {
                workspace_id: workspace_id@,
                tab_id: tab_id@,
                cwd: text_or_none(cwd),
                terminal: terminal_id@,
            },
        ),
{
    let ghost before = workspace_accum_views(groups@);
    let mut slot: usize = 0;
    while slot < groups.len() && groups[slot].id != *workspace_id
        invariant
            before == workspace_accum_views(groups@),
            slot <= groups@.len(),
            forall|i: int| 0 <= i < slot ==> ids_of_workspaces(before)[i] != workspace_id@,
        decreases groups@.len() - slot,
    {
        slot = slot + 1;
    }
    proof {
        lemma_is_first_index(ids_of_workspaces(before), workspace_id@, slot as int);
    }
    if slot < groups.len() {
        groups[slot].push_pane(tab_id.as_str(), terminal_id);
        assert(workspace_accum_views(groups@) == before.update(
            slot as int,
            groups@[slot as int]@,
        ));
    } else {
        let mut group = WorkspaceAccum::new(workspace_id.clone(), cwd);
        group.push_pane(tab_id.as_str(), terminal_id);
        groups.push(group);
        assert(workspace_accum_views(groups@) == before.push(group@));
    }
}

/// The tree names its workspaces, and each workspace its tabs, in the order in which
/// the panes first name them.
pub proof fn law_the_tree_keeps_the_order_of_its_panes(panes: Seq<PlacedPane>)
    ensures
        ({
            let groups = workspace_groups(panes);
            let names = panes.map_values(|pane: PlacedPane| pane.workspace_id);
            &&& forall|m: int|
                0 <= m < panes.len() ==> exists|i: int|
                    0 <= i < groups.len() && (#[trigger] groups[i]).id == (
                    #[trigger] panes[m]).workspace_id
            &&& forall|i: int|
                0 <= i < groups.len() ==> names.contains((#[trigger] groups[i]).id)
            &&& forall|i: int, j: int|
                0 <= i < j < groups.len() ==> first_index(names, (#[trigger] groups[i]).id)
                    < first_index(names, (#[trigger] groups[j]).id)
        }),
{
    let groups = workspace_groups(panes);
    let names = panes.map_values(|pane: PlacedPane| pane.workspace_id);
    let ids = workspace_ids(panes);
    lemma_first_seen(names);
    law_first_seen_keeps_the_order(names);
    assert forall|m: int| 0 <= m < panes.len() implies exists|i: int|
        0 <= i < groups.len() && (#[trigger] groups[i]).id == (
        #[trigger] panes[m]).workspace_id by {
        assert(names[m] == panes[m].workspace_id);
        assert(names.contains(panes[m].workspace_id));
        assert(ids.contains(panes[m].workspace_id));
        let i = choose|i: int| 0 <= i < ids.len() && ids[i] == panes[m].workspace_id;
        assert(groups[i].id == panes[m].workspace_id);
    }
    assert forall|i: int| 0 <= i < groups.len() implies names.contains(
        (#[trigger] groups[i]).id,
    ) by {
        assert(ids.contains(ids[i]));
    }
    assert forall|i: int, j: int| 0 <= i < j < groups.len() implies first_index(
        names,
        (#[trigger] groups[i]).id,
    ) < first_index(names, (#[trigger] groups[j]).id) by {
        assert(groups[i].id == ids[i] && groups[j].id == ids[j]);
    }
}

/// The tabs of a workspace stand in the order in which the panes of the workspace
/// first name them.
pub proof fn law_tabs_keep_the_order_of_their_panes(panes: Seq<PlacedPane>, w: int)
    requires
        0 <= w < workspace_groups(panes).len(),
    ensures
        ({
            let group = workspace_groups(panes)[w];
            let names = panes.filter(
                |pane: PlacedPane| pane.workspace_id == group.id,
            ).map_values(|pane: PlacedPane| pane.tab_id);
            &&& forall|i: int|
                0 <= i < group.tabs.len() ==> names.contains((#[trigger] group.tabs[i]).id)
            &&& forall|i: int, j: int|
                0 <= i < j < group.tabs.len() ==> first_index(names, (#[trigger] group.tabs[i]).id)
                    < first_index(names, (#[trigger] group.tabs[j]).id)
        }),
{
    let group = workspace_groups(panes)[w];
    let mine = in_workspace(panes, group.id);
    let names = mine.map_values(|pane: PlacedPane| pane.tab_id);
    let ids = tab_ids(mine);
    lemma_first_seen(names);
    law_first_seen_keeps_the_order(names);
    assert forall|i: int| 0 <= i < group.tabs.len() implies names.contains(
        (#[trigger] group.tabs[i]).id,
    ) by {
        assert(ids.contains(ids[i]));
    }
    assert forall|i: int, j: int| 0 <= i < j < group.tabs.len() implies first_index(
        names,
        (#[trigger] group.tabs[i]).id,
    ) < first_index(names, (#[trigger] group.tabs[j]).id) by {
        assert(group.tabs[i].id == ids[i] && group.tabs[j].id == ids[j]);
    }
}

/// A workspace lies in the directory of its first pane.
pub proof fn law_the_first_pane_gives_the_directory(panes: Seq<PlacedPane>, w: int) -> (m: int)
    requires
        0 <= w < workspace_groups(panes).len(),
    ensures
        0 <= m < panes.len(),
        panes[m].workspace_id == workspace_groups(panes)[w].id,
        forall|i: int|
            0 <= i < m ==> (#[trigger] panes[i]).workspace_id != workspace_groups(panes)[w].id,
        workspace_groups(panes)[w].identity_cwd == panes[m].cwd,
{
    let id = workspace_ids(panes)[w];
    assert(workspace_ids(panes).contains(id));
    lemma_names_own_panes(panes, id);
    lemma_filter_first(panes, |pane: PlacedPane| pane.workspace_id == id)
}

/// A tab shows the terminals of the panes that name its workspace and it, all of
/// them and in their order.
pub proof fn law_tabs_show_their_panes_in_order(panes: Seq<PlacedPane>, w: int, t: int)
    requires
        0 <= w < workspace_groups(panes).len(),
        0 <= t < workspace_groups(panes)[w].tabs.len(),
    ensures
        ({
            let group = workspace_groups(panes)[w];
            group.tabs[t].terminals == panes.filter(
                |pane: PlacedPane|
                    pane.workspace_id == group.id && pane.tab_id == group.tabs[t].id,
            ).map_values(|pane: PlacedPane| pane.terminal)
        }),
{
    let group = workspace_groups(panes)[w];
    let tab = group.tabs[t].id;
    let first = |pane: PlacedPane| pane.workspace_id == group.id;
    let second = |pane: PlacedPane| pane.tab_id == tab;
    let both = |pane: PlacedPane| pane.workspace_id == group.id && pane.tab_id == tab;
    lemma_filter_twice(panes, first, second);
    assert(both =~= (|pane: PlacedPane| first(pane) && second(pane)));
}

} // verus!
