//! From a remote snapshot to origin-namespaced rows of the local hub.
//!
//! The mapping is pure: it touches no socket and no runtime. Texts that come
//! from the remote (directories, labels, names) are display strings: they are
//! kept as they are, never resolved, and no command runs against them.
use std::collections::HashMap;

use vstd::prelude::*;

use crate::grouping::{
    gather_pane, ids_of_tabs, law_tree_counts_every_pane, law_tree_is_well_formed,
    lemma_workspace_groups_push, panes_in_tabs, panes_in_workspaces, tab_accum_views,
    workspace_accum_views, workspace_groups, PlacedPane, TabAccum, TabGroup, WorkspaceAccum,
    WorkspaceGroup,
};
use crate::layout::{block_start, first_pane_of, Direction, LayoutView, PaneId, Split, TileLayout};
use crate::namespace::{namespace_public_id, namespace_terminal_id, namespaced};
use crate::origin::{Origin, OriginKey, OriginView};
use crate::panes::{display_name_of, lemma_united_len, merge_pane_universe, pane_universe};
use crate::path::UnixPath;
use crate::seqs::{first_index, lemma_filter_len, lemma_filter_push, lemma_is_first_index};
use crate::snapshot::{
    pane_views, workspace_views, RemotePane, RemotePaneView, RemoteSnapshot, RemoteWorkspace,
    RemoteWorkspaceView, SnapshotView,
};
use crate::terminal::{
    agent_named, id_texts, parse_agent_label, AgentState, AgentTable, AgentsView, TerminalId,
    TerminalState, TerminalView,
};
use crate::text::{copy_option, same_text, texts, trim, trimmed};
use crate::workspace::{attached, tab_views, PaneState, Tab, TabView, Workspace, WorkspaceView};

verus! {

broadcast use vstd::std_specs::hash::group_hash_axioms;

// ---------------------------------------------------------------------------
// Rows

/// Origin-namespaced rows derived from a remote snapshot.
///
/// `terminals` has one entry for each remote pane; its key is the namespaced id
/// of the terminal. `workspaces` holds the remote tree of workspaces, tabs and
/// panes, each pane attached to its namespaced terminal.
#[derive(Debug)]
pub struct ForeignRows {
    pub workspaces: Vec<Workspace>,
    pub terminals: Vec<(TerminalId, TerminalState)>,
}

/// Rows, as text.
#[verifier::ext_equal]
pub struct RowsView {
    pub workspaces: Seq<WorkspaceView>,
    pub terminals: Seq<(Seq<char>, TerminalView)>,
}

/// Each of a row of workspaces.
pub open spec fn workspace_rows(workspaces: Seq<Workspace>) -> Seq<WorkspaceView> {
    workspaces.map_values(|workspace: Workspace| workspace@)
}

/// Each of a row of keyed terminals.
pub open spec fn terminal_rows(terminals: Seq<(TerminalId, TerminalState)>) -> Seq<
    (Seq<char>, TerminalView),
> {
    terminals.map_values(|row: (TerminalId, TerminalState)| (row.0@, row.1@))
}

impl View for ForeignRows {
    type V = RowsView;

    open spec fn view(&self) -> RowsView {
        RowsView {
            workspaces: workspace_rows(self.workspaces@),
            terminals: terminal_rows(self.terminals@),
        }
    }
}

/// No rows.
pub open spec fn no_rows() -> RowsView {
    RowsView { workspaces: Seq::empty(), terminals: Seq::empty() }
}

impl ForeignRows {
    /// The empty projection: no foreign workspaces or terminals.
    pub fn empty() -> (r: ForeignRows)
        ensures
            r@ == no_rows(),
    {
        let r = ForeignRows { workspaces: Vec::new(), terminals: Vec::new() };
        assert(r@ == no_rows());
        r
    }
}

// ---------------------------------------------------------------------------
// Terminals

/// The agent state that a remote status text stands for. A finished agent is
/// idle; texts that are not known stand for an unknown state.
pub open spec fn state_of_status(status: Seq<char>) -> AgentState {
    if status == "working"@ {
        AgentState::Working
    } else if status == "idle"@ || status == "done"@ {
        AgentState::Idle
    } else if status == "blocked"@ {
        AgentState::Blocked
    } else {
        AgentState::Unknown
    }
}

/// Reads a remote `agent_status` text.
pub fn agent_state_from_status(status: &str) -> (r: AgentState)
    ensures
        r == state_of_status(status@),
{
    if same_text(status, "working") {
        AgentState::Working
    } else if same_text(status, "idle") || same_text(status, "done") {
        AgentState::Idle
    } else if same_text(status, "blocked") {
        AgentState::Blocked
    } else {
        AgentState::Unknown
    }
}

/// Whether a pane has a terminal to be keyed by.
pub open spec fn has_terminal(pane: RemotePaneView) -> bool {
    trimmed(pane.terminal_id).len() > 0
}

/// The namespaced id of a pane's terminal.
pub open spec fn terminal_id_of(key: Seq<char>, pane: RemotePaneView) -> Seq<char> {
    namespaced(key, trimmed(pane.terminal_id))
}

/// A pane's terminal, namespaced by its origin.
pub open spec fn terminal_of(
    key: Seq<char>,
    pane: RemotePaneView,
    agents: AgentsView,
) -> TerminalView {
    TerminalView {
        id: terminal_id_of(key, pane),
        cwd: match pane.cwd {
            Some(cwd) => cwd,
            None => Seq::empty(),
        },
        state: state_of_status(pane.agent_status),
        detected_agent: match pane.agent {
            Some(label) => agent_named(agents, label),
            None => None,
        },
        manual_label: display_name_of(pane),
        agent_name: display_name_of(pane),
        foreign_remote_pane_id: None,
    }
}

/// Builds the namespaced terminal of a remote pane; none where the pane has no
/// terminal id to key on.
pub fn build_terminal(origin_key: &OriginKey, pane: &RemotePane, agents: &AgentTable) -> (r: Option<
    (TerminalId, TerminalState),
>)
    ensures
        r is Some <==> has_terminal(pane@),
        r matches Some(row) ==> row.0@ == terminal_id_of(origin_key@, pane@) && row.1@
            == terminal_of(origin_key@, pane@, agents@),
{
    let raw = trim(pane.terminal_id.as_str());
    if raw.is_empty() {
        return None;
    }
    let namespaced_id = namespace_terminal_id(origin_key, &TerminalId::from_string(raw));
    let cwd = match &pane.cwd {
        Some(cwd) => UnixPath::from_string(cwd.clone()),
        None => UnixPath::from_string(String::new()),
    };
    let mut terminal = TerminalState::new(namespaced_id.clone(), cwd);
    terminal.state = agent_state_from_status(pane.agent_status.as_str());
    if let Some(agent) = &pane.agent {
        // An agent that is not recognized still has a terminal.
        terminal.detected_agent = parse_agent_label(agents, agent.as_str());
    }
    if let Some(name) = pane.display_name() {
        terminal.manual_label = Some(name.to_owned());
        terminal.agent_name = Some(name.to_owned());
    }
    Some((namespaced_id, terminal))
}

// ---------------------------------------------------------------------------
// Tabs

/// The tiling of `n` panes with consecutive ids: each pane splits the one
/// before it, and the last has the focus.
pub open spec fn chain_layout(first: int, n: int) -> LayoutView {
    LayoutView {
        root: first as PaneId,
        splits: Seq::new(
            (n - 1) as nat,
            |i: int|
                Split {
                    from: (first + i) as PaneId,
                    direction: Direction::Horizontal,
                    pane: (first + i + 1) as PaneId,
                },
        ),
        focused: (first + n - 1) as PaneId,
    }
}

/// A tab with consecutive pane ids, one for each of a row of terminals.
pub open spec fn tab_of(terminals: Seq<Seq<char>>, number: int, first: int) -> TabView {
    TabView {
        custom_name: None,
        number,
        root_pane: first as PaneId,
        layout: chain_layout(first, terminals.len() as int),
        panes: Map::new(
            |id: PaneId| first <= id < first + terminals.len(),
            |id: PaneId| terminals[id - first],
        ),
        zoomed: false,
    }
}

/// The public numbers of `n` panes with consecutive ids, numbered from `number`.
pub open spec fn numbered(first: int, n: int, number: int) -> Map<PaneId, usize> {
    Map::new(
        |id: PaneId| first <= id < first + n,
        |id: PaneId| (number + (id - first)) as usize,
    )
}

/// Builds a tab whose panes attach to `terminals` in order, with ids from
/// `first` on, and gives each pane its public number.
pub fn build_tab(
    number: usize,
    terminals: &Vec<TerminalId>,
    first: PaneId,
    public_pane_numbers: &mut HashMap<PaneId, usize>,
    next_public_pane_number: &mut usize,
) -> (r: Tab)
    requires
        terminals@.len() > 0,
        first + terminals@.len() <= u128::MAX,
        *old(next_public_pane_number) + terminals@.len() <= usize::MAX,
    ensures
        r@ == tab_of(id_texts(terminals@), number as int, first as int),
        *final(next_public_pane_number) == *old(next_public_pane_number) + terminals@.len(),
        final(public_pane_numbers)@ == old(public_pane_numbers)@.union_prefer_right(
            numbered(
                first as int,
                terminals@.len() as int,
                *old(next_public_pane_number) as int,
            ),
        ),
{
    let ghost ids = id_texts(terminals@);
    let ghost numbers = public_pane_numbers@;
    let ghost number_before = *next_public_pane_number as int;
    let mut layout = TileLayout::new(first);
    assert(layout@ == chain_layout(first as int, 1));
    let mut panes: HashMap<PaneId, PaneState> = HashMap::new();
    assert(attached(panes@) == tab_of(ids.take(0), 0, first as int).panes);
    assert(numbers == numbers.union_prefer_right(numbered(first as int, 0, number_before)));
    let mut i: usize = 0;
    while i < terminals.len()
        invariant
            terminals@.len() > 0,
            i <= terminals@.len(),
            first + terminals@.len() <= u128::MAX,
            number_before + terminals@.len() <= usize::MAX,
            ids == id_texts(terminals@),
            layout@ == chain_layout(
                first as int,
                if i == 0 {
                    1
                } else {
                    i as int
                },
            ),
            attached(panes@) == tab_of(ids.take(i as int), 0, first as int).panes,
            *next_public_pane_number == number_before + i,
            public_pane_numbers@ == numbers.union_prefer_right(
                numbered(first as int, i as int, number_before),
            ),
        decreases terminals@.len() - i,
    {
        let pane_id: PaneId = first + i as u128;
        let ghost layout_before = layout@;
        let ghost panes_before = panes@;
        let ghost map_before = public_pane_numbers@;
        if i > 0 {
            layout.split_focused(Direction::Horizontal, pane_id);
            assert(layout@ == chain_layout(first as int, i + 1));
        }
        panes.insert(pane_id, PaneState::new(terminals[i].clone()));
        public_pane_numbers.insert(pane_id, *next_public_pane_number);
        *next_public_pane_number = *next_public_pane_number + 1;
        proof {
            assert(attached(panes@) == attached(panes_before).insert(pane_id, ids[i as int]));
            assert(attached(panes@) == tab_of(ids.take(i + 1), 0, first as int).panes);
            assert(public_pane_numbers@ == numbers.union_prefer_right(
                numbered(first as int, i + 1, number_before),
            ));
        }
        i = i + 1;
    }
    assert(ids.take(ids.len() as int) == ids);
    Tab { custom_name: None, number, root_pane: first, layout, panes, zoomed: false }
}

/// The tabs of a workspace, numbered from one, with consecutive pane ids.
pub open spec fn tabs_of(tabs: Seq<TabGroup>, first: int) -> Seq<TabView> {
    Seq::new(
        tabs.len(),
        |i: int| tab_of(tabs[i].terminals, i + 1, first + panes_in_tabs(tabs.take(i))),
    )
}

// ---------------------------------------------------------------------------
// Workspaces

/// The entry of a snapshot for a workspace.
pub open spec fn workspace_entry(entries: Seq<RemoteWorkspaceView>, id: Seq<char>) -> Option<
    RemoteWorkspaceView,
> {
    let slot = first_index(
        entries.map_values(|entry: RemoteWorkspaceView| entry.workspace_id),
        id,
    );
    if slot < entries.len() {
        Some(entries[slot])
    } else {
        None
    }
}

/// The display name of a workspace: `<origin>/<remote label>`, or the origin's
/// label alone where the remote has none. The workspace id stands in for an
/// empty origin label.
pub open spec fn workspace_name(
    origin_label: Seq<char>,
    entry: Option<RemoteWorkspaceView>,
    id: Seq<char>,
) -> Seq<char> {
    let base = if trimmed(origin_label).len() == 0 {
        id
    } else {
        origin_label
    };
    match entry {
        Some(workspace) => if trimmed(workspace.label).len() > 0 {
            base + "/"@ + trimmed(workspace.label)
        } else {
            base
        },
        None => base,
    }
}

/// The place of the active tab: where the remote's active tab stands, else the
/// first.
pub open spec fn active_tab_of(entry: Option<RemoteWorkspaceView>, tabs: Seq<TabGroup>) -> int {
    match entry {
        Some(workspace) => {
            let slot = first_index(ids_of_tabs(tabs), workspace.active_tab_id);
            if workspace.active_tab_id.len() > 0 && slot < tabs.len() {
                slot
            } else {
                0
            }
        },
        None => 0,
    }
}

/// A workspace of a snapshot, with pane ids from `first` on.
pub open spec fn workspace_of(
    origin: OriginView,
    entries: Seq<RemoteWorkspaceView>,
    group: WorkspaceGroup,
    first: int,
) -> WorkspaceView {
    let entry = workspace_entry(entries, group.id);
    WorkspaceView {
        id: namespaced(origin.key, group.id),
        custom_name: Some(workspace_name(origin.label, entry, group.id)),
        identity_cwd: match group.identity_cwd {
            Some(cwd) => cwd,
            None => Seq::empty(),
        },
        cached_git_branch: None,
        cached_git_ahead_behind: None,
        cached_git_space: None,
        worktree_space: None,
        metadata_tokens: Seq::empty(),
        metadata_token_sequences: Seq::empty(),
        public_pane_numbers: numbered(first, panes_in_tabs(group.tabs) as int, 1),
        next_public_pane_number: panes_in_tabs(group.tabs) as int + 1,
        next_public_tab_number: group.tabs.len() as int + 1,
        tabs: tabs_of(group.tabs, first),
        active_tab: active_tab_of(entry, group.tabs),
    }
}

/// Finds the entry of a workspace.
fn find_workspace<'a>(workspaces: &'a Vec<RemoteWorkspace>, id: &String) -> (r: Option<
    &'a RemoteWorkspace,
>)
    ensures
        match workspace_entry(workspace_views(workspaces@), id@) {
            Some(entry) => r matches Some(found) && found@ == entry,
            None => r is None,
        },
{
    let ghost ids = workspace_views(workspaces@).map_values(
        |entry: RemoteWorkspaceView| entry.workspace_id,
    );
    let mut i: usize = 0;
    while i < workspaces.len() && workspaces[i].workspace_id != *id
        invariant
            i <= workspaces@.len(),
            ids == workspace_views(workspaces@).map_values(
                |entry: RemoteWorkspaceView| entry.workspace_id,
            ),
            forall|k: int| 0 <= k < i ==> ids[k] != id@,
        decreases workspaces@.len() - i,
    {
        i = i + 1;
    }
    proof {
        lemma_is_first_index(ids, id@, i as int);
    }
    if i < workspaces.len() {
        Some(&workspaces[i])
    } else {
        None
    }
}

/// Origin-labeled display name of a workspace.
pub fn workspace_label(origin: &Origin, remote: Option<&RemoteWorkspace>, ws_id: &str) -> (r:
    String)
    ensures
        r@ == workspace_name(
            origin.label@,
            match remote {
                Some(workspace) => Some(workspace@),
                None => None,
            },
            ws_id@,
        ),
{
    let base: &str = if trim(origin.label.as_str()).is_empty() {
        ws_id
    } else {
        origin.label.as_str()
    };
    let mut r = base.to_owned();
    if let Some(workspace) = remote {
        let label = trim(workspace.label.as_str());
        if !label.is_empty() {
            r.append("/");
            r.append(label);
        }
    }
    r
}

/// Finds the active tab.
fn find_active_tab(remote: Option<&RemoteWorkspace>, tabs: &Vec<TabAccum>) -> (r: usize)
    ensures
        r == active_tab_of(
            match remote {
                Some(workspace) => Some(workspace@),
                None => None,
            },
            tab_accum_views(tabs@),
        ),
{
    let ghost groups = tab_accum_views(tabs@);
    if let Some(workspace) = remote {
        if workspace.active_tab_id.as_str().is_empty() {
            return 0;
        }
        let mut i: usize = 0;
        while i < tabs.len() && tabs[i].id != workspace.active_tab_id
            invariant
                i <= tabs@.len(),
                groups == tab_accum_views(tabs@),
                forall|k: int| 0 <= k < i ==> ids_of_tabs(groups)[k] != workspace.active_tab_id@,
            decreases tabs@.len() - i,
        {
            i = i + 1;
        }
        proof {
            lemma_is_first_index(ids_of_tabs(groups), workspace.active_tab_id@, i as int);
        }
        if i < tabs.len() {
            return i;
        }
    }
    0
}

/// A tab has at least one pane: there are no more tabs than panes.
proof fn lemma_tabs_have_panes(tabs: Seq<TabGroup>)
    requires
        forall|i: int| 0 <= i < tabs.len() ==> (#[trigger] tabs[i]).terminals.len() > 0,
    ensures
        tabs.len() <= panes_in_tabs(tabs),
    decreases tabs.len(),
{
    if tabs.len() > 0 {
        lemma_tabs_have_panes(tabs.drop_last());
    }
}

/// The panes of a part of a row of tabs are no more than those of the row.
pub proof fn lemma_panes_in_tabs_take(tabs: Seq<TabGroup>, n: int)
    requires
        0 <= n <= tabs.len(),
    ensures
        panes_in_tabs(tabs.take(n)) <= panes_in_tabs(tabs),
    decreases tabs.len(),
{
    if n == tabs.len() {
        assert(tabs.take(n) == tabs);
    } else {
        assert(tabs.drop_last().take(n) == tabs.take(n));
        lemma_panes_in_tabs_take(tabs.drop_last(), n);
    }
}

/// The panes of a part of a row of workspaces, one workspace at a time.
pub proof fn lemma_panes_in_workspaces_take(groups: Seq<WorkspaceGroup>, n: int)
    requires
        0 <= n < groups.len(),
    ensures
        panes_in_workspaces(groups.take(n + 1)) == panes_in_workspaces(groups.take(n))
            + panes_in_tabs(groups[n].tabs),
        panes_in_workspaces(groups.take(n + 1)) <= panes_in_workspaces(groups),
    decreases groups.len(),
{
    assert(groups.take(n + 1).drop_last() == groups.take(n));
    if n + 1 == groups.len() {
        assert(groups.take(n + 1) == groups);
    } else {
        assert(groups.drop_last().take(n + 1) == groups.take(n + 1));
        assert(groups.drop_last().take(n) == groups.take(n));
        lemma_panes_in_workspaces_take(groups.drop_last(), n);
    }
}

impl WorkspaceAccum {
    /// Materializes the workspace, with pane ids from `first` on.
    pub fn into_workspace(self, origin: &Origin, snap: &RemoteSnapshot, first: PaneId) -> (r:
        Workspace)
        requires
            forall|i: int|
                0 <= i < self@.tabs.len() ==> (#[trigger] self@.tabs[i]).terminals.len() > 0,
            panes_in_tabs(self@.tabs) < usize::MAX,
            first + panes_in_tabs(self@.tabs) <= u128::MAX,
        ensures
            r@ == workspace_of(origin@, snap@.workspaces, self@, first as int),
    {
        let ghost groups = self@.tabs;
        let remote = find_workspace(&snap.workspaces, &self.id);
        let active_tab = find_active_tab(remote, &self.tabs);
        let label = workspace_label(origin, remote, self.id.as_str());
        let identity_cwd = match &self.identity_cwd {
            Some(cwd) => UnixPath::from_string(cwd.clone()),
            None => UnixPath::from_string(String::new()),
        };
        proof {
            lemma_tabs_have_panes(groups);
        }
        let mut tabs: Vec<Tab> = Vec::new();
        let mut public_pane_numbers: HashMap<PaneId, usize> = HashMap::new();
        let mut next_public_pane_number: usize = 1;
        assert(tab_views(tabs@) == tabs_of(groups.take(0), first as int));
        assert(public_pane_numbers@ == numbered(first as int, 0, 1));
        let mut i: usize = 0;
        while i < self.tabs.len()
            invariant
                groups == tab_accum_views(self.tabs@),
                i <= groups.len(),
                groups.len() <= panes_in_tabs(groups) < usize::MAX,
                first + panes_in_tabs(groups) <= u128::MAX,
                forall|k: int| 0 <= k < groups.len() ==> (#[trigger] groups[k]).terminals.len() > 0,
                tab_views(tabs@) == tabs_of(groups.take(i as int), first as int),
                next_public_pane_number == 1 + panes_in_tabs(groups.take(i as int)),
                public_pane_numbers@ == numbered(
                    first as int,
                    panes_in_tabs(groups.take(i as int)) as int,
                    1,
                ),
            decreases groups.len() - i,
        {
            let ghost done = groups.take(i as int);
            let ghost more = groups.take(i + 1);
            proof {
                assert(more.drop_last() == done);
                assert(groups[i as int].terminals == id_texts(self.tabs@[i as int].terminals@));
                lemma_panes_in_tabs_take(groups, i + 1);
            }
            let ghost tabs_before = tabs@;
            let tab = build_tab(
                i + 1,
                &self.tabs[i].terminals,
                first + (next_public_pane_number - 1) as u128,
                &mut public_pane_numbers,
                &mut next_public_pane_number,
            );
            tabs.push(tab);
            proof {
                assert forall|k: int| 0 <= k < i implies more.take(k) == #[trigger] done.take(
                    k,
                ) by {
                }
                assert(more.take(i as int) == done);
                assert(tab_views(tabs@) == tab_views(tabs_before).push(tab@));
                assert(tab_views(tabs@) == tabs_of(more, first as int));
                assert(public_pane_numbers@ == numbered(
                    first as int,
                    panes_in_tabs(more) as int,
                    1,
                ));
            }
            i = i + 1;
        }
        assert(groups.take(groups.len() as int) == groups);
        let next_public_tab_number: usize = tabs.len() + 1;
        Workspace {
            id: namespace_public_id(&origin.key, self.id.as_str()),
            custom_name: Some(label),
            identity_cwd,
            // Never asked of the untrusted paths of a remote.
            cached_git_branch: None,
            cached_git_ahead_behind: None,
            cached_git_space: None,
            worktree_space: None,
            metadata_tokens: Vec::new(),
            metadata_token_sequences: Vec::new(),
            public_pane_numbers,
            next_public_pane_number,
            next_public_tab_number,
            tabs,
            active_tab,
        }
    }
}

// ---------------------------------------------------------------------------
// The mapping

/// Whether a pane gets a row: it names its workspace and its tab and has a
/// terminal.
pub open spec fn survives(pane: RemotePaneView) -> bool {
    pane.workspace_id.len() > 0 && pane.tab_id.len() > 0 && has_terminal(pane)
}

/// The panes of a snapshot that get a row.
pub open spec fn kept_panes(snap: SnapshotView) -> Seq<RemotePaneView> {
    pane_universe(snap).filter(|pane: RemotePaneView| survives(pane))
}

/// A pane's place in the tree.
pub open spec fn placed(key: Seq<char>, pane: RemotePaneView) -> PlacedPane {
    PlacedPane {
        workspace_id: pane.workspace_id,
        tab_id: pane.tab_id,
        cwd: pane.cwd,
        terminal: terminal_id_of(key, pane),
    }
}

/// The places of a row of panes.
pub open spec fn placed_panes(key: Seq<char>, panes: Seq<RemotePaneView>) -> Seq<PlacedPane> {
    panes.map_values(|pane: RemotePaneView| placed(key, pane))
}

/// The keyed terminals of a row of panes.
pub open spec fn terminals_of(
    key: Seq<char>,
    panes: Seq<RemotePaneView>,
    agents: AgentsView,
) -> Seq<(Seq<char>, TerminalView)> {
    panes.map_values(
        |pane: RemotePaneView| (terminal_id_of(key, pane), terminal_of(key, pane, agents)),
    )
}

/// The workspaces of a tree, with consecutive pane ids from `first` on.
pub open spec fn workspaces_of(
    origin: OriginView,
    entries: Seq<RemoteWorkspaceView>,
    groups: Seq<WorkspaceGroup>,
    first: int,
) -> Seq<WorkspaceView> {
    Seq::new(
        groups.len(),
        |i: int|
            workspace_of(origin, entries, groups[i], first + panes_in_workspaces(groups.take(i))),
    )
}

/// The tree of a snapshot.
pub open spec fn tree_of(origin: OriginView, snap: SnapshotView) -> Seq<WorkspaceGroup> {
    workspace_groups(placed_panes(origin.key, kept_panes(snap)))
}

/// The rows of a snapshot, with pane ids out of a block.
pub open spec fn rows_of(
    origin: OriginView,
    snap: SnapshotView,
    agents: AgentsView,
    block: u64,
) -> RowsView {
    RowsView {
        workspaces: workspaces_of(
            origin,
            snap.workspaces,
            tree_of(origin, snap),
            block_start(block),
        ),
        terminals: terminals_of(origin.key, kept_panes(snap), agents),
    }
}

/// A snapshot has no more rows than pane entries.
pub proof fn lemma_kept_panes_len(snap: SnapshotView)
    ensures
        kept_panes(snap).len() <= snap.panes.len() + snap.agents.len(),
{
    lemma_filter_len(pane_universe(snap), |pane: RemotePaneView| survives(pane));
    lemma_united_len(snap.panes + snap.agents);
}

/// The agent labels of a row of panes, pane by pane.
pub open spec fn labels_of(panes: Seq<RemotePaneView>) -> Seq<Seq<char>>
    decreases panes.len(),
{
    if panes.len() == 0 {
        Seq::empty()
    } else {
        let labels = labels_of(panes.drop_last());
        match panes.last().agent {
            Some(label) => labels.push(label),
            None => labels,
        }
    }
}

/// The agent labels of a snapshot: what its rows need the label parser for.
pub fn agent_labels(snap: &RemoteSnapshot) -> (r: Vec<String>)
    ensures
        texts(r@) == labels_of(pane_universe(snap@)),
{
    let panes = merge_pane_universe(snap);
    let ghost universe = pane_views(panes@);
    let mut r: Vec<String> = Vec::new();
    let mut i: usize = 0;
    assert(texts(r@) == labels_of(universe.take(0)));
    while i < panes.len()
        invariant
            i <= panes@.len(),
            universe == pane_views(panes@),
            texts(r@) == labels_of(universe.take(i as int)),
        decreases panes@.len() - i,
    {
        let ghost before = r@;
        proof {
            assert(universe.take(i + 1).drop_last() == universe.take(i as int));
            assert(universe.take(i + 1).last() == panes@[i as int]@);
        }
        if let Some(label) = &panes[i].agent {
            r.push(label.clone());
            assert(texts(r@) == texts(before).push(label@));
        }
        i = i + 1;
    }
    assert(universe.take(i as int) == universe);
    r
}

/// Maps a remote snapshot to origin-namespaced rows. `agents` says what the
/// hub's parser makes of the snapshot's agent labels; the panes of the rows get
/// ids out of `block`.
pub fn foreign_rows(
    origin: &Origin,
    snap: &RemoteSnapshot,
    agents: &AgentTable,
    block: u64,
) -> (r: ForeignRows)
    requires
        snap@.numberable(),
    ensures
        r@ == rows_of(origin@, snap@, agents@, block),
{
    let panes = merge_pane_universe(snap);
    let ghost universe = pane_views(panes@);
    let ghost keep = |pane: RemotePaneView| survives(pane);
    let mut terminals: Vec<(TerminalId, TerminalState)> = Vec::new();
    let mut accums: Vec<WorkspaceAccum> = Vec::new();
    proof {
        reveal(Seq::filter);
        assert(universe.take(0).filter(keep) == Seq::<RemotePaneView>::empty());
        law_tree_counts_every_pane(Seq::empty());
        assert(workspace_accum_views(accums@) == workspace_groups(
            placed_panes(origin.key@, Seq::empty()),
        ));
        assert(terminal_rows(terminals@) == terminals_of(origin.key@, Seq::empty(), agents@));
    }
    let mut i: usize = 0;
    while i < panes.len()
        invariant
            universe == pane_views(panes@),
            keep == (|pane: RemotePaneView| survives(pane)),
            i <= panes@.len(),
            terminal_rows(terminals@) == terminals_of(
                origin.key@,
                universe.take(i as int).filter(keep),
                agents@,
            ),
            workspace_accum_views(accums@) == workspace_groups(
                placed_panes(origin.key@, universe.take(i as int).filter(keep)),
            ),
        decreases panes@.len() - i,
    {
        let pane = &panes[i];
        let ghost done = universe.take(i as int).filter(keep);
        proof {
            assert(universe.take(i + 1) == universe.take(i as int).push(pane@));
            lemma_filter_push(universe.take(i as int), pane@, keep);
        }
        if !pane.workspace_id.as_str().is_empty() && !pane.tab_id.as_str().is_empty() {
            if let Some((terminal_id, terminal)) = build_terminal(&origin.key, pane, agents) {
                let ghost rows_before = terminals@;
                terminals.push((terminal_id.clone(), terminal));
                gather_pane(
                    &mut accums,
                    &pane.workspace_id,
                    &pane.tab_id,
                    copy_option(&pane.cwd),
                    terminal_id,
                );
                proof {
                    assert(survives(pane@));
                    assert(terminal_rows(terminals@) == terminal_rows(rows_before).push(
                        (terminal_id@, terminal@),
                    ));
                    assert(terminals_of(origin.key@, done.push(pane@), agents@) == terminals_of(
                        origin.key@,
                        done,
                        agents@,
                    ).push((terminal_id@, terminal@)));
                    assert(placed_panes(origin.key@, done.push(pane@)) == placed_panes(
                        origin.key@,
                        done,
                    ).push(placed(origin.key@, pane@)));
                    lemma_workspace_groups_push(
                        placed_panes(origin.key@, done),
                        placed(origin.key@, pane@),
                    );
                }
            }
        }
        i = i + 1;
    }
    assert(universe.take(universe.len() as int) == universe);
    let ghost row = placed_panes(origin.key@, kept_panes(snap@));
    let ghost tree = tree_of(origin@, snap@);
    proof {
        lemma_kept_panes_len(snap@);
        law_tree_counts_every_pane(row);
        law_tree_is_well_formed(row);
    }
    let workspaces = into_workspaces(accums, origin, snap, first_pane_of(block));
    ForeignRows { workspaces, terminals }
}

/// Materializes a row of workspaces, with consecutive pane ids from `first` on.
fn into_workspaces(
    accums: Vec<WorkspaceAccum>,
    origin: &Origin,
    snap: &RemoteSnapshot,
    first: PaneId,
) -> (r: Vec<Workspace>)
    requires
        forall|i: int, j: int|
            0 <= i < workspace_accum_views(accums@).len() && 0 <= j < workspace_accum_views(
                accums@,
            )[i].tabs.len() ==> (#[trigger] workspace_accum_views(
                accums@,
            )[i].tabs[j]).terminals.len() > 0,
        panes_in_workspaces(workspace_accum_views(accums@)) < usize::MAX,
        first + panes_in_workspaces(workspace_accum_views(accums@)) <= u128::MAX,
    ensures
        workspace_rows(r@) == workspaces_of(
            origin@,
            snap@.workspaces,
            workspace_accum_views(accums@),
            first as int,
        ),
{
    let ghost groups = workspace_accum_views(accums@);
    let mut rest = accums;
    let mut workspaces: Vec<Workspace> = Vec::new();
    let mut next: PaneId = first;
    let ghost mut done: int = 0;
    assert(workspace_rows(workspaces@) == workspaces_of(
        origin@,
        snap@.workspaces,
        groups.take(0),
        first as int,
    ));
    while rest.len() > 0
        invariant
            forall|i: int, j: int|
                0 <= i < groups.len() && 0 <= j < groups[i].tabs.len() ==> (
                #[trigger] groups[i].tabs[j]).terminals.len() > 0,
            panes_in_workspaces(groups) < usize::MAX,
            first + panes_in_workspaces(groups) <= u128::MAX,
            0 <= done <= groups.len(),
            workspace_accum_views(rest@) == groups.skip(done),
            next == first + panes_in_workspaces(groups.take(done)),
            workspace_rows(workspaces@) == workspaces_of(
                origin@,
                snap@.workspaces,
                groups.take(done),
                first as int,
            ),
        decreases rest@.len(),
    {
        let ghost before = rest@;
        assert(workspace_accum_views(before).len() == groups.len() - done);
        assert(workspace_accum_views(before)[0] == groups.skip(done)[0]);
        let accum = rest.remove(0);
        let ghost group = accum@;
        proof {
            assert(group == groups[done]);
            lemma_panes_in_workspaces_take(groups, done);
            assert forall|j: int| 0 <= j < group.tabs.len() implies (
            #[trigger] group.tabs[j]).terminals.len() > 0 by {
                assert(groups[done].tabs[j].terminals.len() > 0);
            }
        }
        let workspace = accum.into_workspace(origin, snap, next);
        let panes: usize = workspace.next_public_pane_number - 1;
        next = next + panes as u128;
        let ghost rows_before = workspaces@;
        workspaces.push(workspace);
        proof {
            let taken = groups.take(done);
            let more = groups.take(done + 1);
            assert forall|k: int| 0 <= k < done implies more.take(k) == #[trigger] taken.take(
                k,
            ) by {
            }
            assert(more.take(done) == taken);
            assert(workspace_rows(workspaces@) == workspace_rows(rows_before).push(workspace@));
            assert(workspace_rows(workspaces@) == workspaces_of(
                origin@,
                snap@.workspaces,
                more,
                first as int,
            ));
            assert(rest@ == before.drop_first());
            assert(workspace_accum_views(rest@) == workspace_accum_views(before).drop_first());
            assert(workspace_accum_views(rest@) == groups.skip(done + 1));
            done = done + 1;
        }
    }
    assert(groups.take(groups.len() as int) == groups);
    workspaces
}

/// Rows are seen as what is held, field by field.
pub proof fn law_what_is_seen_is_held(rows: ForeignRows)
    ensures
        rows@.workspaces == workspace_rows(rows.workspaces@),
        rows@.terminals == terminal_rows(rows.terminals@),
{
}

/// Rows are seen each in its place, and no rows are none of either kind.
pub proof fn law_rows_are_seen_in_their_places(
    workspaces: Seq<Workspace>,
    terminals: Seq<(TerminalId, TerminalState)>,
)
    ensures
        workspace_rows(workspaces).len() == workspaces.len(),
        forall|i: int|
            0 <= i < workspaces.len() ==> #[trigger] workspace_rows(workspaces)[i]
                == workspaces[i]@,
        terminal_rows(terminals).len() == terminals.len(),
        forall|i: int|
            0 <= i < terminals.len() ==> #[trigger] terminal_rows(terminals)[i]
                == (terminals[i].0@, terminals[i].1@),
        no_rows().workspaces.len() == 0,
        no_rows().terminals.len() == 0,
{
}

} // verus!
