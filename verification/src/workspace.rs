//! Workspaces, their tabs and their panes.
use std::collections::HashMap;

use vstd::prelude::*;

use crate::layout::{LayoutView, PaneId, TileLayout};
use crate::path::UnixPath;
use crate::terminal::TerminalId;
use crate::text::text_or_none;

verus! {

broadcast use vstd::std_specs::hash::group_hash_axioms;

/// A pane: the terminal that it shows.
#[derive(Debug)]
pub struct PaneState {
    pub attached_terminal_id: TerminalId,
}

impl PaneState {
    pub fn new(attached_terminal_id: TerminalId) -> (r: PaneState)
        ensures
            r.attached_terminal_id == attached_terminal_id,
    {
        PaneState { attached_terminal_id }
    }
}

/// The terminal that each pane shows.
pub open spec fn attached(panes: Map<PaneId, PaneState>) -> Map<PaneId, Seq<char>> {
    panes.map_values(|pane: PaneState| pane.attached_terminal_id@)
}

/// A tab.
#[derive(Debug)]
pub struct Tab {
    pub custom_name: Option<String>,
    /// The tab's public number in its workspace.
    pub number: usize,
    pub root_pane: PaneId,
    pub layout: TileLayout,
    pub panes: HashMap<PaneId, PaneState>,
    pub zoomed: bool,
}

/// A tab: the terminal of each of its panes, and their tiling.
#[verifier::ext_equal]
pub struct TabView {
    pub custom_name: Option<Seq<char>>,
    pub number: int,
    pub root_pane: PaneId,
    pub layout: LayoutView,
    pub panes: Map<PaneId, Seq<char>>,
    pub zoomed: bool,
}

impl View for Tab {
    type V = TabView;

    open spec fn view(&self) -> TabView {
        TabView {
            custom_name: text_or_none(self.custom_name),
            number: self.number as int,
            root_pane: self.root_pane,
            layout: self.layout@,
            panes: attached(self.panes@),
            zoomed: self.zoomed,
        }
    }
}

/// Each of a row of tabs.
pub open spec fn tab_views(tabs: Seq<Tab>) -> Seq<TabView> {
    tabs.map_values(|tab: Tab| tab@)
}

/// A workspace.
#[derive(Debug)]
pub struct Workspace {
    pub id: String,
    pub custom_name: Option<String>,
    pub identity_cwd: UnixPath,
    /// The branch that is checked out in the workspace, where it was asked for.
    pub cached_git_branch: Option<String>,
    /// How many commits that branch is ahead of and behind its upstream.
    pub cached_git_ahead_behind: Option<(usize, usize)>,
    /// The repository that the workspace lies in, where it was asked for.
    pub cached_git_space: Option<String>,
    /// The worktree that the workspace was made for.
    pub worktree_space: Option<String>,
    /// Tokens that were attached to the workspace, by name.
    pub metadata_tokens: Vec<(String, String)>,
    /// The last sequence number that each source of tokens used.
    pub metadata_token_sequences: Vec<(String, u64)>,
    pub public_pane_numbers: HashMap<PaneId, usize>,
    pub next_public_pane_number: usize,
    pub next_public_tab_number: usize,
    pub tabs: Vec<Tab>,
    pub active_tab: usize,
}

/// Each of a row of named tokens.
pub open spec fn token_views(tokens: Seq<(String, String)>) -> Seq<(Seq<char>, Seq<char>)> {
    tokens.map_values(|token: (String, String)| (token.0@, token.1@))
}

/// Each of a row of named sequence numbers.
pub open spec fn sequence_views(numbers: Seq<(String, u64)>) -> Seq<(Seq<char>, u64)> {
    numbers.map_values(|number: (String, u64)| (number.0@, number.1))
}

/// A workspace, as text.
#[verifier::ext_equal]
pub struct WorkspaceView {
    pub id: Seq<char>,
    pub custom_name: Option<Seq<char>>,
    pub identity_cwd: Seq<char>,
    pub cached_git_branch: Option<Seq<char>>,
    pub cached_git_ahead_behind: Option<(usize, usize)>,
    pub cached_git_space: Option<Seq<char>>,
    pub worktree_space: Option<Seq<char>>,
    pub metadata_tokens: Seq<(Seq<char>, Seq<char>)>,
    pub metadata_token_sequences: Seq<(Seq<char>, u64)>,
    pub public_pane_numbers: Map<PaneId, usize>,
    pub next_public_pane_number: int,
    pub next_public_tab_number: int,
    pub tabs: Seq<TabView>,
    pub active_tab: int,
}

impl View for Workspace {
    type V = WorkspaceView;

    open spec fn view(&self) -> WorkspaceView {
        WorkspaceView {
            id: self.id@,
            custom_name: text_or_none(self.custom_name),
            identity_cwd: self.identity_cwd@,
            cached_git_branch: text_or_none(self.cached_git_branch),
            cached_git_ahead_behind: self.cached_git_ahead_behind,
            cached_git_space: text_or_none(self.cached_git_space),
            worktree_space: text_or_none(self.worktree_space),
            metadata_tokens: token_views(self.metadata_tokens@),
            metadata_token_sequences: sequence_views(self.metadata_token_sequences@),
            public_pane_numbers: self.public_pane_numbers@,
            next_public_pane_number: self.next_public_pane_number as int,
            next_public_tab_number: self.next_public_tab_number as int,
            tabs: tab_views(self.tabs@),
            active_tab: self.active_tab as int,
        }
    }
}

impl WorkspaceView {
    /// The pane that has the focus: that of the active tab.
    pub open spec fn focused_pane(self) -> Option<PaneId> {
        if self.active_tab < self.tabs.len() {
            Some(self.tabs[self.active_tab].layout.focused)
        } else {
            None
        }
    }

    /// The terminal of a pane: what the first tab that has the pane says.
    pub open spec fn terminal_of(self, pane: PaneId) -> Option<Seq<char>> {
        terminal_in(self.tabs, pane)
    }
}

/// The terminal of a pane in the first tab that has it.
pub open spec fn terminal_in(tabs: Seq<TabView>, pane: PaneId) -> Option<Seq<char>>
    decreases tabs.len(),
{
    if tabs.len() == 0 {
        None
    } else if tabs[0].panes.contains_key(pane) {
        Some(tabs[0].panes[pane])
    } else {
        terminal_in(tabs.drop_first(), pane)
    }
}

impl Workspace {
    /// The pane that has the focus.
    pub fn focused_pane_id(&self) -> (r: Option<PaneId>)
        ensures
            r == self@.focused_pane(),
    {
        if self.active_tab < self.tabs.len() {
            assert(self@.tabs[self.active_tab as int] == self.tabs@[self.active_tab as int]@);
            Some(self.tabs[self.active_tab].layout.focused())
        } else {
            None
        }
    }

    /// The terminal that a pane of this workspace shows.
    pub fn terminal_id(&self, pane: PaneId) -> (r: Option<&TerminalId>)
        ensures
            match self@.terminal_of(pane) {
                Some(id) => r matches Some(found) && found@ == id,
                None => r is None,
            },
    {
        let ghost tabs = tab_views(self.tabs@);
        let mut i: usize = 0;
        assert(tabs.skip(0) == tabs);
        while i < self.tabs.len()
            invariant
                tabs == tab_views(self.tabs@),
                i <= self.tabs@.len(),
                self@.terminal_of(pane) == terminal_in(tabs.skip(i as int), pane),
            decreases self.tabs@.len() - i,
        {
            let ghost rest = tabs.skip(i as int);
            assert(rest[0] == self.tabs@[i as int]@);
            match self.tabs[i].panes.get(&pane) {
                Some(state) => {
                    return Some(&state.attached_terminal_id);
                },
                None => {
                    assert(rest.drop_first() == tabs.skip(i + 1));
                },
            }
            i = i + 1;
        }
        None
    }
}

/// The focus of a workspace is that of its active tab, and a pane shows what the
/// first tab that has it says.
pub proof fn law_a_workspace_answers_for_its_tabs(workspace: WorkspaceView, pane: PaneId, tab: int)
    requires
        0 <= tab < workspace.tabs.len(),
        workspace.tabs[tab].panes.contains_key(pane),
        forall|i: int|
            0 <= i < tab ==> !(#[trigger] workspace.tabs[i]).panes.contains_key(pane),
    ensures
        workspace.terminal_of(pane) == Some(workspace.tabs[tab].panes[pane]),
        workspace.active_tab == tab ==> workspace.focused_pane() == Some(
            workspace.tabs[tab].layout.focused,
        ),
{
    lemma_terminal_in(workspace.tabs, pane, tab);
}

proof fn lemma_terminal_in(tabs: Seq<TabView>, pane: PaneId, k: int)
    requires
        0 <= k < tabs.len(),
        tabs[k].panes.contains_key(pane),
        forall|i: int| 0 <= i < k ==> !(#[trigger] tabs[i]).panes.contains_key(pane),
    ensures
        terminal_in(tabs, pane) == Some(tabs[k].panes[pane]),
    decreases tabs.len(),
{
    if k > 0 {
        let rest = tabs.drop_first();
        assert(rest[k - 1] == tabs[k]);
        assert(!tabs[0].panes.contains_key(pane));
        assert forall|i: int| 0 <= i < k - 1 implies !(#[trigger] rest[i]).panes.contains_key(
            pane,
        ) by {
            assert(!tabs[i + 1].panes.contains_key(pane));
        }
        lemma_terminal_in(rest, pane, k - 1);
    }
}

/// A pane that no tab has shows nothing, and a workspace without its active tab has
/// no focus.
pub proof fn law_missing_panes_show_nothing(workspace: WorkspaceView, pane: PaneId)
    ensures
        (forall|i: int|
            0 <= i < workspace.tabs.len() ==> !(#[trigger] workspace.tabs[i]).panes.contains_key(
                pane,
            )) ==> workspace.terminal_of(pane) is None,
        workspace.active_tab >= workspace.tabs.len() ==> workspace.focused_pane() is None,
{
    if forall|i: int|
        0 <= i < workspace.tabs.len() ==> !(#[trigger] workspace.tabs[i]).panes.contains_key(pane) {
        lemma_nowhere(workspace.tabs, pane);
    }
}

proof fn lemma_nowhere(tabs: Seq<TabView>, pane: PaneId)
    requires
        forall|i: int| 0 <= i < tabs.len() ==> !(#[trigger] tabs[i]).panes.contains_key(pane),
    ensures
        terminal_in(tabs, pane) is None,
    decreases tabs.len(),
{
    if tabs.len() > 0 {
        let rest = tabs.drop_first();
        assert(!tabs[0].panes.contains_key(pane));
        assert forall|i: int| 0 <= i < rest.len() implies !(#[trigger] rest[i]).panes.contains_key(
            pane,
        ) by {
            assert(!tabs[i + 1].panes.contains_key(pane));
        }
        lemma_nowhere(rest, pane);
    }
}

/// Tabs and workspaces are seen as what is held, field by field.
pub proof fn law_what_is_seen_is_held(
    tab: Tab,
    workspace: Workspace,
)
    ensures
        tab@.custom_name == text_or_none(tab.custom_name),
        tab@.number == tab.number as int,
        tab@.root_pane == tab.root_pane,
        tab@.layout == tab.layout@,
        tab@.panes == attached(tab.panes@),
        tab@.zoomed == tab.zoomed,
        workspace@.id == workspace.id@,
        workspace@.custom_name == text_or_none(workspace.custom_name),
        workspace@.identity_cwd == workspace.identity_cwd@,
        workspace@.cached_git_branch == text_or_none(workspace.cached_git_branch),
        workspace@.cached_git_ahead_behind == workspace.cached_git_ahead_behind,
        workspace@.cached_git_space == text_or_none(workspace.cached_git_space),
        workspace@.worktree_space == text_or_none(workspace.worktree_space),
        workspace@.metadata_tokens == token_views(workspace.metadata_tokens@),
        workspace@.metadata_token_sequences == sequence_views(workspace.metadata_token_sequences@),
        workspace@.public_pane_numbers == workspace.public_pane_numbers@,
        workspace@.next_public_pane_number == workspace.next_public_pane_number as int,
        workspace@.next_public_tab_number == workspace.next_public_tab_number as int,
        workspace@.tabs == tab_views(workspace.tabs@),
        workspace@.active_tab == workspace.active_tab as int,
{
}

/// The panes of a tab, the tabs of a workspace and its tokens are seen each in its place.
pub proof fn law_parts_are_seen_in_their_places(
    panes: Map<PaneId, PaneState>,
    tabs: Seq<Tab>,
    tokens: Seq<(String, String)>,
    numbers: Seq<(String, u64)>,
)
    ensures
        attached(panes).dom() == panes.dom(),
        forall|pane: PaneId|
            panes.contains_key(pane) ==> #[trigger] attached(panes)[pane]
                == panes[pane].attached_terminal_id@,
        tab_views(tabs).len() == tabs.len(),
        forall|i: int| 0 <= i < tabs.len() ==> #[trigger] tab_views(tabs)[i] == tabs[i]@,
        token_views(tokens).len() == tokens.len(),
        forall|i: int|
            0 <= i < tokens.len() ==> #[trigger] token_views(tokens)[i]
                == (tokens[i].0@, tokens[i].1@),
        sequence_views(numbers).len() == numbers.len(),
        forall|i: int|
            0 <= i < numbers.len() ==> #[trigger] sequence_views(numbers)[i]
                == (numbers[i].0@, numbers[i].1),
{
}

} // verus!
