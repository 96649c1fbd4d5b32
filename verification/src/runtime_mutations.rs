//! Runtime mutations of the hub: what is carried out here, and what is routed to
//! the origin that owns the workspace.
//!
//! A mutation of a foreign workspace is carried out by the remote server and
//! comes back with its next snapshot; it is never applied here. Each function
//! decides where a mutation goes; the caller carries the action out.
use vstd::prelude::*;

use crate::api::{
    Method, MethodView, PaneSplitParams, PaneSplitView, PaneTarget, Params, TabCreateParams,
    TabCreateView, TabTarget, WorkspaceTarget,
};
use crate::ingest::{terminal_rows, workspace_rows};
use crate::layout::PaneId;
use crate::namespace::{
    law_parse_undoes_namespacing, namespaced, parse_foreign_workspace_id, parsed,
};
use crate::origin::{valid_key, OriginKey};
use crate::path::UnixPath;
use crate::terminal::{TerminalId, TerminalState, TerminalView};
use crate::text::{copy_option, text_or_none};
use crate::workspace::{Workspace, WorkspaceView};

verus! {

/// How long a routed action may take, in seconds.
pub const FOREIGN_ACTION_TIMEOUT_SECS: u64 = 3;

/// What the hub shows.
#[derive(Debug)]
pub struct AppState {
    pub federation_enabled: bool,
    pub workspaces: Vec<Workspace>,
    /// The place of the active workspace.
    pub active: Option<usize>,
    /// The terminals under their ids.
    pub terminals: Vec<(TerminalId, TerminalState)>,
}

/// The hub.
#[derive(Debug)]
pub struct App {
    pub state: AppState,
    /// Where the sockets of the origins are forwarded to, if it is configured.
    pub federation_socket_dir: Option<UnixPath>,
}

/// The hub, as text.
pub struct AppView {
    pub federation_enabled: bool,
    pub workspaces: Seq<WorkspaceView>,
    pub active: Option<usize>,
    pub terminals: Seq<(Seq<char>, TerminalView)>,
    pub federation_socket_dir: Option<Seq<char>>,
}

/// A path that may be missing, as text.
pub open spec fn path_or_none(path: Option<UnixPath>) -> Option<Seq<char>> {
    match path {
        Some(path) => Some(path@),
        None => None,
    }
}

impl View for App {
    type V = AppView;

    open spec fn view(&self) -> AppView {
        AppView {
            federation_enabled: self.state.federation_enabled,
            workspaces: workspace_rows(self.state.workspaces@),
            active: self.state.active,
            terminals: terminal_rows(self.state.terminals@),
            federation_socket_dir: path_or_none(self.federation_socket_dir),
        }
    }
}

/// What to do with a mutation.
#[derive(Debug)]
pub enum RuntimeAction {
    /// Carry it out here and answer with the result.
    Dispatch { id: String, method: Method },
    /// Carry it out here, without an answer at once.
    DispatchDeferred { id: String, method: Method },
    /// Have the owning origin carry it out, fire and forget; the answer is empty.
    Route {
        origin_key: OriginKey,
        method: Method,
        timeout_secs: u64,
        socket_dir: Option<UnixPath>,
    },
    /// It concerns a foreign pane whose remote id is not known: do nothing; the
    /// answer is empty.
    Skip,
}

/// What to do with a mutation, as text.
pub enum ActionView {
    Dispatch { id: Seq<char>, method: MethodView },
    DispatchDeferred { id: Seq<char>, method: MethodView },
    Route {
        origin_key: Seq<char>,
        method: MethodView,
        timeout_secs: u64,
        socket_dir: Option<Seq<char>>,
    },
    Skip,
}

impl View for RuntimeAction {
    type V = ActionView;

    open spec fn view(&self) -> ActionView {
        match self {
            RuntimeAction::Dispatch { id, method } => ActionView::Dispatch {
                id: id@,
                method: method@,
            },
            RuntimeAction::DispatchDeferred { id, method } => ActionView::DispatchDeferred {
                id: id@,
                method: method@,
            },
            RuntimeAction::Route { origin_key, method, timeout_secs, socket_dir } => {
                ActionView::Route {
                    origin_key: origin_key@,
                    method: method@,
                    timeout_secs: *timeout_secs,
                    socket_dir: path_or_none(*socket_dir),
                }
            },
            RuntimeAction::Skip => ActionView::Skip,
        }
    }
}

// ---------------------------------------------------------------------------
// Where a mutation goes

/// The id of the workspace that a mutation concerns: the one it names, else the
/// active one.
pub open spec fn concerned(app: AppView, workspace_id: Option<Seq<char>>) -> Option<Seq<char>> {
    match workspace_id {
        Some(id) => Some(id),
        None => match app.active {
            Some(index) => if index < app.workspaces.len() {
                Some(app.workspaces[index as int].id)
            } else {
                None
            },
            None => None,
        },
    }
}

/// The owning origin and the raw workspace id of a mutation; none where
/// federation is disabled or the workspace is the hub's own.
pub open spec fn foreign_target(app: AppView, workspace_id: Option<Seq<char>>) -> Option<
    (Seq<char>, Seq<char>),
> {
    if !app.federation_enabled {
        None
    } else {
        match concerned(app, workspace_id) {
            Some(id) => parsed(id),
            None => None,
        }
    }
}

/// The terminal with an id: the first that has it.
pub open spec fn terminal_with(rows: Seq<(Seq<char>, TerminalView)>, id: Seq<char>) -> Option<
    TerminalView,
>
    decreases rows.len(),
{
    if rows.len() == 0 {
        None
    } else if rows[0].0 == id {
        Some(rows[0].1)
    } else {
        terminal_with(rows.drop_first(), id)
    }
}

/// The terminal that the focused pane of the active workspace shows.
pub open spec fn focused_terminal(app: AppView) -> Option<Seq<char>> {
    match app.active {
        Some(index) => if index < app.workspaces.len() {
            match app.workspaces[index as int].focused_pane() {
                Some(pane) => app.workspaces[index as int].terminal_of(pane),
                None => None,
            }
        } else {
            None
        },
        None => None,
    }
}

/// Whether the active workspace belongs to an origin.
pub open spec fn active_is_foreign(app: AppView) -> bool {
    match concerned(app, None) {
        Some(id) => parsed(id) is Some,
        None => false,
    }
}

/// The id that the focused pane of the active workspace has on its origin's
/// server, as far as it is known. None where the workspace is the hub's own.
pub open spec fn focused_remote_pane(app: AppView) -> Option<Seq<char>> {
    if !active_is_foreign(app) {
        None
    } else {
        match focused_terminal(app) {
            Some(id) => match terminal_with(app.terminals, id) {
                Some(terminal) => terminal.foreign_remote_pane_id,
                None => None,
            },
            None => None,
        }
    }
}

/// A mutation that is carried out here.
pub open spec fn dispatched(id: Seq<char>, method: MethodView) -> ActionView {
    ActionView::Dispatch { id, method }
}

/// A mutation that its origin carries out.
pub open spec fn routed(app: AppView, origin_key: Seq<char>, method: MethodView) -> ActionView {
    ActionView::Route {
        origin_key,
        method,
        timeout_secs: FOREIGN_ACTION_TIMEOUT_SECS,
        socket_dir: app.federation_socket_dir,
    }
}

/// Where closing a workspace goes.
pub open spec fn close_workspace(
    app: AppView,
    id: Seq<char>,
    workspace_id: Seq<char>,
) -> ActionView {
    match foreign_target(app, Some(workspace_id)) {
        Some((key, raw)) => routed(app, key, MethodView::WorkspaceClose(raw)),
        None => dispatched(id, MethodView::WorkspaceClose(workspace_id)),
    }
}

/// Where making a tab goes.
pub open spec fn create_tab(app: AppView, id: Seq<char>, params: TabCreateView) -> ActionView {
    match foreign_target(app, params.workspace_id) {
        Some((key, raw)) => routed(
            app,
            key,
            MethodView::TabCreate(TabCreateView { workspace_id: Some(raw), ..params }),
        ),
        None => dispatched(id, MethodView::TabCreate(params)),
    }
}

/// Where closing a pane goes.
pub open spec fn close_pane(app: AppView, id: Seq<char>, pane_id: Seq<char>) -> ActionView {
    match foreign_target(app, None) {
        Some((key, raw)) => match focused_remote_pane(app) {
            Some(pane) => routed(app, key, MethodView::PaneClose(pane)),
            None => ActionView::Skip,
        },
        None => dispatched(id, MethodView::PaneClose(pane_id)),
    }
}

/// Where splitting a pane goes.
pub open spec fn split_pane(app: AppView, id: Seq<char>, params: PaneSplitView) -> ActionView {
    match foreign_target(app, params.workspace_id) {
        Some((key, raw)) => routed(
            app,
            key,
            MethodView::PaneSplit(
                PaneSplitView {
                    workspace_id: Some(raw),
                    target_pane_id: if params.target_pane_id is None {
                        focused_remote_pane(app)
                    } else {
                        params.target_pane_id
                    },
                    options: params.options,
                },
            ),
        ),
        None => dispatched(id, MethodView::PaneSplit(params)),
    }
}

/// A text that may be missing.
pub open spec fn borrowed_or_none(text: Option<&str>) -> Option<Seq<char>> {
    match text {
        Some(text) => Some(text@),
        None => None,
    }
}

/// Finds the terminal with an id.
fn find_terminal<'a>(rows: &'a Vec<(TerminalId, TerminalState)>, id: &TerminalId) -> (r: Option<
    &'a TerminalState,
>)
    ensures
        match terminal_with(terminal_rows(rows@), id@) {
            Some(terminal) => r matches Some(found) && found@ == terminal,
            None => r is None,
        },
{
    let ghost all = terminal_rows(rows@);
    let mut i: usize = 0;
    assert(all.skip(0) == all);
    while i < rows.len()
        invariant
            i <= rows@.len(),
            all == terminal_rows(rows@),
            terminal_with(all, id@) == terminal_with(all.skip(i as int), id@),
        decreases rows@.len() - i,
    {
        let ghost rest = all.skip(i as int);
        assert(rest[0] == (rows@[i as int].0@, rows@[i as int].1@));
        if rows[i].0 == *id {
            return Some(&rows[i].1);
        }
        assert(rest.drop_first() == all.skip(i + 1));
        i = i + 1;
    }
    None
}

/// A copy of a path that may be missing.
fn copy_path(path: &Option<UnixPath>) -> (r: Option<UnixPath>)
    ensures
        r == *path,
{
    match path {
        Some(path) => Some(path.clone()),
        None => None,
    }
}

impl App {
    /// Carries a mutation out here.
    pub fn dispatch_runtime_mutation(&self, id: &str, method: Method) -> (r: RuntimeAction)
        ensures
            r@ == dispatched(id@, method@),
    {
        RuntimeAction::Dispatch { id: id.to_owned(), method }
    }

    /// Carries a mutation out here, without an answer at once.
    pub fn dispatch_deferred_runtime_mutation(&self, id: &str, method: Method) -> (r: RuntimeAction)
        ensures
            r@ == (ActionView::DispatchDeferred { id: id@, method: method@ }),
    {
        RuntimeAction::DispatchDeferred { id: id.to_owned(), method }
    }

    /// Resolves a foreign workspace from an explicit id or, without one, the
    /// active workspace: the owning origin and the raw workspace id. None where
    /// federation is disabled or the workspace is the hub's own.
    pub fn foreign_workspace_target(&self, workspace_id: Option<&str>) -> (r: Option<
        (OriginKey, String),
    >)
        ensures
            match foreign_target(self@, borrowed_or_none(workspace_id)) {
                Some((key, raw)) => r matches Some(found) && found.0@ == key && found.1@ == raw,
                None => r is None,
            },
    {
        if !self.state.federation_enabled {
            return None;
        }
        match workspace_id {
            Some(id) => parse_foreign_workspace_id(id),
            None => match self.state.active {
                Some(index) => if index < self.state.workspaces.len() {
                    assert(self@.workspaces[index as int] == self.state.workspaces@[index as int]@);
                    parse_foreign_workspace_id(self.state.workspaces[index].id.as_str())
                } else {
                    None
                },
                None => None,
            },
        }
    }

    /// The id that the focused pane of the active foreign workspace has on its
    /// origin's server, as its terminal retains it. None where the active
    /// workspace is the hub's own, or the terminal retains no id.
    pub fn active_foreign_pane_id(&self) -> (r: Option<String>)
        ensures
            text_or_none(r) == focused_remote_pane(self@),
    {
        let index = match self.state.active {
            Some(index) => index,
            None => {
                return None;
            },
        };
        if index >= self.state.workspaces.len() {
            return None;
        }
        let workspace = &self.state.workspaces[index];
        assert(self@.workspaces[index as int] == workspace@);
        if parse_foreign_workspace_id(workspace.id.as_str()).is_none() {
            return None;
        }
        let pane = match workspace.focused_pane_id() {
            Some(pane) => pane,
            None => {
                return None;
            },
        };
        let terminal_id = match workspace.terminal_id(pane) {
            Some(id) => id,
            None => {
                return None;
            },
        };
        match find_terminal(&self.state.terminals, terminal_id) {
            Some(terminal) => copy_option(&terminal.foreign_remote_pane_id),
            None => None,
        }
    }

    /// Routes a structure mutation to the owning origin.
    pub fn route_foreign_structure_action(&self, origin_key: OriginKey, method: Method) -> (r:
        RuntimeAction)
        ensures
            r@ == routed(self@, origin_key@, method@),
    {
        RuntimeAction::Route {
            origin_key,
            method,
            timeout_secs: FOREIGN_ACTION_TIMEOUT_SECS,
            socket_dir: copy_path(&self.federation_socket_dir),
        }
    }

    /// Closes a workspace. That of an origin is closed by its server.
    pub fn runtime_workspace_close(&self, id: &str, workspace_id: String) -> (r: RuntimeAction)
        ensures
            r@ == close_workspace(self@, id@, workspace_id@),
    {
        if let Some((origin_key, raw)) = self.foreign_workspace_target(
            Some(workspace_id.as_str()),
        ) {
            return self.route_foreign_structure_action(
                origin_key,
                Method::WorkspaceClose(WorkspaceTarget { workspace_id: raw }),
            );
        }
        self.dispatch_runtime_mutation(id, Method::WorkspaceClose(WorkspaceTarget { workspace_id }))
    }

    /// Makes a tab. One in a foreign workspace is made by its server, which
    /// knows the workspace by its raw id.
    pub fn runtime_tab_create(&self, id: &str, params: TabCreateParams) -> (r: RuntimeAction)
        ensures
            r@ == create_tab(self@, id@, params@),
    {
        let named: Option<&str> = match &params.workspace_id {
            Some(workspace_id) => Some(workspace_id.as_str()),
            None => None,
        };
        if let Some((origin_key, raw)) = self.foreign_workspace_target(named) {
            let mut params = params;
            params.workspace_id = Some(raw);
            return self.route_foreign_structure_action(origin_key, Method::TabCreate(params));
        }
        self.dispatch_runtime_mutation(id, Method::TabCreate(params))
    }

    /// Closes a pane. The focused pane of a foreign workspace is closed by its
    /// server, under the id that it has there; where that id is not known,
    /// nothing happens.
    pub fn runtime_pane_close(&self, id: &str, pane_id: String) -> (r: RuntimeAction)
        ensures
            r@ == close_pane(self@, id@, pane_id@),
    {
        if let Some((origin_key, _raw)) = self.foreign_workspace_target(None) {
            return match self.active_foreign_pane_id() {
                Some(raw_pane_id) => self.route_foreign_structure_action(
                    origin_key,
                    Method::PaneClose(PaneTarget { pane_id: raw_pane_id }),
                ),
                None => RuntimeAction::Skip,
            };
        }
        self.dispatch_runtime_mutation(id, Method::PaneClose(PaneTarget { pane_id }))
    }

    /// Splits a pane. One in a foreign workspace is split by its server; without
    /// a target that is the focused pane, under the id that it has there.
    pub fn runtime_pane_split(&self, id: &str, params: PaneSplitParams) -> (r: RuntimeAction)
        ensures
            r@ == split_pane(self@, id@, params@),
    {
        let named: Option<&str> = match &params.workspace_id {
            Some(workspace_id) => Some(workspace_id.as_str()),
            None => None,
        };
        if let Some((origin_key, raw)) = self.foreign_workspace_target(named) {
            let mut params = params;
            params.workspace_id = Some(raw);
            if params.target_pane_id.is_none() {
                params.target_pane_id = self.active_foreign_pane_id();
            }
            return self.route_foreign_structure_action(origin_key, Method::PaneSplit(params));
        }
        self.dispatch_runtime_mutation(id, Method::PaneSplit(params))
    }

    pub fn runtime_workspace_focus(&self, id: &str, workspace_id: String) -> (r: RuntimeAction)
        ensures
            r@ == dispatched(id@, MethodView::WorkspaceFocus(workspace_id@)),
    {
        self.dispatch_runtime_mutation(id, Method::WorkspaceFocus(WorkspaceTarget { workspace_id }))
    }

    pub fn runtime_tab_focus(&self, id: &str, tab_id: String) -> (r: RuntimeAction)
        ensures
            r@ == dispatched(id@, MethodView::TabFocus(tab_id@)),
    {
        self.dispatch_runtime_mutation(id, Method::TabFocus(TabTarget { tab_id }))
    }

    pub fn runtime_tab_close(&self, id: &str, tab_id: String) -> (r: RuntimeAction)
        ensures
            r@ == dispatched(id@, MethodView::TabClose(tab_id@)),
    {
        self.dispatch_runtime_mutation(id, Method::TabClose(TabTarget { tab_id }))
    }

    pub fn runtime_pane_focus(&self, id: &str, pane_id: String) -> (r: RuntimeAction)
        ensures
            r@ == dispatched(id@, MethodView::PaneFocus(pane_id@)),
    {
        self.dispatch_runtime_mutation(id, Method::PaneFocus(PaneTarget { pane_id }))
    }

    pub fn runtime_server_reload_config(&self, id: &str) -> (r: RuntimeAction)
        ensures
            r@ == dispatched(id@, MethodView::ServerReloadConfig),
    {
        self.dispatch_runtime_mutation(id, Method::ServerReloadConfig)
    }

    pub fn runtime_workspace_create(&self, id: &str, params: Params) -> (r: RuntimeAction)
        ensures
            r@ == dispatched(id@, MethodView::WorkspaceCreate(params@)),
    {
        self.dispatch_runtime_mutation(id, Method::WorkspaceCreate(params))
    }

    pub fn runtime_workspace_rename(&self, id: &str, params: Params) -> (r: RuntimeAction)
        ensures
            r@ == dispatched(id@, MethodView::WorkspaceRename(params@)),
    {
        self.dispatch_runtime_mutation(id, Method::WorkspaceRename(params))
    }

    pub fn runtime_workspace_move(&self, id: &str, params: Params) -> (r: RuntimeAction)
        ensures
            r@ == dispatched(id@, MethodView::WorkspaceMove(params@)),
    {
        self.dispatch_runtime_mutation(id, Method::WorkspaceMove(params))
    }

    pub fn runtime_workspace_move_block(&self, id: &str, params: Params) -> (r: RuntimeAction)
        ensures
            r@ == dispatched(id@, MethodView::WorkspaceMoveBlock(params@)),
    {
        self.dispatch_runtime_mutation(id, Method::WorkspaceMoveBlock(params))
    }

    pub fn runtime_tab_rename(&self, id: &str, params: Params) -> (r: RuntimeAction)
        ensures
            r@ == dispatched(id@, MethodView::TabRename(params@)),
    {
        self.dispatch_runtime_mutation(id, Method::TabRename(params))
    }

    pub fn runtime_tab_move(&self, id: &str, params: Params) -> (r: RuntimeAction)
        ensures
            r@ == dispatched(id@, MethodView::TabMove(params@)),
    {
        self.dispatch_runtime_mutation(id, Method::TabMove(params))
    }

    pub fn runtime_pane_rename(&self, id: &str, params: Params) -> (r: RuntimeAction)
        ensures
            r@ == dispatched(id@, MethodView::PaneRename(params@)),
    {
        self.dispatch_runtime_mutation(id, Method::PaneRename(params))
    }

    pub fn runtime_pane_input_set(&self, id: &str, params: Params) -> (r: RuntimeAction)
        ensures
            r@ == dispatched(id@, MethodView::PaneInputSet(params@)),
    {
        self.dispatch_runtime_mutation(id, Method::PaneInputSet(params))
    }

    pub fn runtime_pane_focus_direction(&self, id: &str, params: Params) -> (r: RuntimeAction)
        ensures
            r@ == dispatched(id@, MethodView::PaneFocusDirection(params@)),
    {
        self.dispatch_runtime_mutation(id, Method::PaneFocusDirection(params))
    }

    pub fn runtime_pane_resize(&self, id: &str, params: Params) -> (r: RuntimeAction)
        ensures
            r@ == dispatched(id@, MethodView::PaneResize(params@)),
    {
        self.dispatch_runtime_mutation(id, Method::PaneResize(params))
    }

    pub fn runtime_pane_swap(&self, id: &str, params: Params) -> (r: RuntimeAction)
        ensures
            r@ == dispatched(id@, MethodView::PaneSwap(params@)),
    {
        self.dispatch_runtime_mutation(id, Method::PaneSwap(params))
    }

    pub fn runtime_pane_zoom(&self, id: &str, params: Params) -> (r: RuntimeAction)
        ensures
            r@ == dispatched(id@, MethodView::PaneZoom(params@)),
    {
        self.dispatch_runtime_mutation(id, Method::PaneZoom(params))
    }

    pub fn runtime_layout_set_split_ratio(&self, id: &str, params: Params) -> (r: RuntimeAction)
        ensures
            r@ == dispatched(id@, MethodView::LayoutSetSplitRatio(params@)),
    {
        self.dispatch_runtime_mutation(id, Method::LayoutSetSplitRatio(params))
    }

    pub fn runtime_worktree_open(&self, id: &str, params: Params) -> (r: RuntimeAction)
        ensures
            r@ == dispatched(id@, MethodView::WorktreeOpen(params@)),
    {
        self.dispatch_runtime_mutation(id, Method::WorktreeOpen(params))
    }

    pub fn runtime_worktree_create_deferred(&self, id: &str, params: Params) -> (r: RuntimeAction)
        ensures
            r@ == (ActionView::DispatchDeferred {
                id: id@,
                method: MethodView::WorktreeCreate(params@),
            }),
    {
        self.dispatch_deferred_runtime_mutation(id, Method::WorktreeCreate(params))
    }

    pub fn runtime_worktree_remove_deferred(&self, id: &str, params: Params) -> (r: RuntimeAction)
        ensures
            r@ == (ActionView::DispatchDeferred {
                id: id@,
                method: MethodView::WorktreeRemove(params@),
            }),
    {
        self.dispatch_deferred_runtime_mutation(id, Method::WorktreeRemove(params))
    }
}

// ---------------------------------------------------------------------------
// What routing promises

/// With federation disabled, every mutation is carried out here, as it is.
pub proof fn law_disabled_federation_is_local(
    app: AppView,
    id: Seq<char>,
    workspace_id: Seq<char>,
    tab: TabCreateView,
    pane_id: Seq<char>,
    split: PaneSplitView,
)
    requires
        !app.federation_enabled,
    ensures
        close_workspace(app, id, workspace_id) == dispatched(
            id,
            MethodView::WorkspaceClose(workspace_id),
        ),
        create_tab(app, id, tab) == dispatched(id, MethodView::TabCreate(tab)),
        close_pane(app, id, pane_id) == dispatched(id, MethodView::PaneClose(pane_id)),
        split_pane(app, id, split) == dispatched(id, MethodView::PaneSplit(split)),
{
}

/// Whether an action is carried out by an origin, or not at all.
pub open spec fn is_left_to(action: ActionView, origin_key: Seq<char>) -> bool {
    match action {
        ActionView::Route { origin_key: key, .. } => key == origin_key,
        ActionView::Skip => true,
        _ => false,
    }
}

/// A foreign workspace is never changed here: with federation enabled, closing
/// it, making a tab in it, and closing or splitting a pane of it are left to the
/// origin that its id names.
pub proof fn law_foreign_workspaces_are_never_changed_here(
    app: AppView,
    id: Seq<char>,
    key: Seq<char>,
    raw: Seq<char>,
    tab: TabCreateView,
    pane_id: Seq<char>,
    split: PaneSplitView,
)
    requires
        app.federation_enabled,
        valid_key(key),
        raw.len() > 0,
    ensures
        close_workspace(app, id, namespaced(key, raw)) == routed(
            app,
            key,
            MethodView::WorkspaceClose(raw),
        ),
        concerned(app, tab.workspace_id) == Some(namespaced(key, raw)) ==> is_left_to(
            create_tab(app, id, tab),
            key,
        ),
        concerned(app, None) == Some(namespaced(key, raw)) ==> is_left_to(
            close_pane(app, id, pane_id),
            key,
        ),
        concerned(app, split.workspace_id) == Some(namespaced(key, raw)) ==> is_left_to(
            split_pane(app, id, split),
            key,
        ),
{
    law_parse_undoes_namespacing(key, raw);
}

/// A workspace of the hub is never routed: where the id names no origin, the
/// mutation is carried out here, as it is.
pub proof fn law_local_workspaces_stay_local(
    app: AppView,
    id: Seq<char>,
    workspace_id: Seq<char>,
    tab: TabCreateView,
)
    requires
        parsed(workspace_id) is None,
        tab.workspace_id == Some(workspace_id),
    ensures
        close_workspace(app, id, workspace_id) == dispatched(
            id,
            MethodView::WorkspaceClose(workspace_id),
        ),
        create_tab(app, id, tab) == dispatched(id, MethodView::TabCreate(tab)),
{
}

/// A pane of the hub's own is never named to an origin: where the active
/// workspace is the hub's, splitting in a foreign workspace hands over the
/// target that the request gives, and none where it gives none.
pub proof fn law_local_panes_are_never_named_to_an_origin(
    app: AppView,
    id: Seq<char>,
    split: PaneSplitView,
)
    requires
        !active_is_foreign(app),
    ensures
        focused_remote_pane(app) is None,
        foreign_target(app, split.workspace_id) matches Some((key, raw)) ==> split_pane(
            app,
            id,
            split,
        ) == routed(
            app,
            key,
            MethodView::PaneSplit(PaneSplitView { workspace_id: Some(raw), ..split }),
        ),
{
}

/// Where a foreign workspace is concerned, named or active, its origin is asked for
/// just what was requested: the workspace goes by its raw id, and nothing else of
/// the request changes.
pub proof fn law_routed_requests_keep_what_they_ask_for(
    app: AppView,
    id: Seq<char>,
    workspace_id: Seq<char>,
    key: Seq<char>,
    raw: Seq<char>,
    tab: TabCreateView,
    split: PaneSplitView,
)
    requires
        app.federation_enabled,
        parsed(workspace_id) == Some((key, raw)),
    ensures
        ({
            &&& close_workspace(app, id, workspace_id) matches ActionView::Route {
                origin_key,
                method: MethodView::WorkspaceClose(closed),
                timeout_secs,
                socket_dir,
            }
            &&& origin_key == key
            &&& closed == raw
            &&& timeout_secs == 3
            &&& socket_dir == app.federation_socket_dir
        }),
        concerned(app, tab.workspace_id) == Some(workspace_id) ==> ({
            &&& create_tab(app, id, tab) matches ActionView::Route {
                origin_key,
                method: MethodView::TabCreate(made),
                timeout_secs,
                socket_dir,
            }
            &&& origin_key == key
            &&& made.workspace_id == Some(raw)
            &&& made.cwd == tab.cwd
            &&& made.focus == tab.focus
            &&& made.label == tab.label
            &&& made.env == tab.env
            &&& timeout_secs == 3
            &&& socket_dir == app.federation_socket_dir
        }),
        concerned(app, split.workspace_id) == Some(workspace_id) ==> ({
            &&& split_pane(app, id, split) matches ActionView::Route {
                origin_key,
                method: MethodView::PaneSplit(made),
                timeout_secs,
                socket_dir,
            }
            &&& origin_key == key
            &&& made.workspace_id == Some(raw)
            &&& split.target_pane_id is Some ==> made.target_pane_id == split.target_pane_id
            &&& split.target_pane_id is None ==> made.target_pane_id == focused_remote_pane(app)
            &&& made.options == split.options
            &&& timeout_secs == 3
            &&& socket_dir == app.federation_socket_dir
        }),
{
}

/// Closing a pane while a foreign workspace is active names to its origin the pane
/// that has the focus there, whatever pane the request names; where its id there is
/// not known, nothing happens.
pub proof fn law_foreign_panes_are_closed_by_their_own_ids(
    app: AppView,
    id: Seq<char>,
    pane_id: Seq<char>,
    workspace_id: Seq<char>,
    key: Seq<char>,
    raw: Seq<char>,
)
    requires
        app.federation_enabled,
        concerned(app, None) == Some(workspace_id),
        parsed(workspace_id) == Some((key, raw)),
    ensures
        match focused_remote_pane(app) {
            Some(pane) => {
                &&& close_pane(app, id, pane_id) matches ActionView::Route {
                    origin_key,
                    method: MethodView::PaneClose(closed),
                    timeout_secs,
                    socket_dir,
                }
                &&& origin_key == key
                &&& closed == pane
                &&& timeout_secs == 3
                &&& socket_dir == app.federation_socket_dir
            },
            None => close_pane(app, id, pane_id) is Skip,
        },
{
}

/// Which workspace a mutation concerns: the one that it names, whatever is active;
/// without a name the active one; and none where there is none.
pub proof fn law_mutations_concern_the_named_or_the_active(app: AppView, named: Seq<char>)
    ensures
        concerned(app, Some(named)) == Some(named),
        app.active is None ==> concerned(app, None) is None,
        app.active matches Some(index) ==> {
            &&& index >= app.workspaces.len() ==> concerned(app, None) is None
            &&& index < app.workspaces.len() ==> concerned(app, None) == Some(
                app.workspaces[index as int].id,
            )
        },
{
}

/// The pane that is named to an origin is the focused one of the active foreign
/// workspace: its id is the one that the terminal retains which that pane shows.
pub proof fn law_the_focused_pane_is_the_one_named(
    app: AppView,
    index: usize,
    pane: PaneId,
    terminal: int,
)
    requires
        app.active == Some(index),
        index < app.workspaces.len(),
        parsed(app.workspaces[index as int].id) is Some,
        app.workspaces[index as int].focused_pane() == Some(pane),
        0 <= terminal < app.terminals.len(),
        app.workspaces[index as int].terminal_of(pane) == Some(app.terminals[terminal].0),
        forall|i: int|
            0 <= i < terminal ==> (#[trigger] app.terminals[i]).0 != app.terminals[terminal].0,
    ensures
        focused_remote_pane(app) == app.terminals[terminal].1.foreign_remote_pane_id,
{
    lemma_terminal_with(app.terminals, terminal);
}

proof fn lemma_terminal_with(rows: Seq<(Seq<char>, TerminalView)>, k: int)
    requires
        0 <= k < rows.len(),
        forall|i: int| 0 <= i < k ==> (#[trigger] rows[i]).0 != rows[k].0,
    ensures
        terminal_with(rows, rows[k].0) == Some(rows[k].1),
    decreases rows.len(),
{
    if k > 0 {
        let rest = rows.drop_first();
        assert(rest[k - 1] == rows[k]);
        assert forall|i: int| 0 <= i < k - 1 implies (#[trigger] rest[i]).0 != rest[k - 1].0 by {
            assert(rows[i + 1].0 != rows[k].0);
        }
        assert(rows[0].0 != rows[k].0);
        lemma_terminal_with(rest, k - 1);
    }
}

/// Making a tab in a foreign workspace, by its name, asks the origin that the name
/// holds for a tab in the workspace of the raw id, with the folder, the focus, the
/// label and the environment of the request.
pub proof fn law_foreign_tabs_are_made_as_requested(
    app: &App,
    id: &str,
    params: TabCreateParams,
    key: Seq<char>,
    raw: Seq<char>,
    r: RuntimeAction,
)
    requires
        app.state.federation_enabled,
        params.workspace_id is Some,
        parsed(params.workspace_id->0@) == Some((key, raw)),
        call_ensures(App::runtime_tab_create, (app, id, params), r),
    ensures
        ({
            &&& r matches RuntimeAction::Route { origin_key, method: Method::TabCreate(made), .. }
            &&& origin_key@ == key
            &&& made.workspace_id is Some && made.workspace_id->0@ == raw
            &&& made.cwd is Some <==> params.cwd is Some
            &&& params.cwd is Some ==> made.cwd->0@ == params.cwd->0@
            &&& made.focus == params.focus
            &&& made.label is Some <==> params.label is Some
            &&& params.label is Some ==> made.label->0@ == params.label->0@
            &&& made.env@ == params.env@
        }),
{
    law_routed_requests_keep_what_they_ask_for(
        app@,
        id@,
        params.workspace_id->0@,
        key,
        raw,
        params@,
        PaneSplitView { workspace_id: None, target_pane_id: None, options: id@ },
    );
    assert(r@ is Route);
    assert(r is Route);
    let method = r->Route_method;
    assert(method@ is TabCreate);
    assert(method is TabCreate);
    assert(method->TabCreate_0@ == method@->TabCreate_0);
}

/// Focusing, and closing a tab, happen here, for what is named and under the id of
/// the request.
pub proof fn law_focus_is_moved_here(
    app: &App,
    id: &str,
    name: String,
    workspace: RuntimeAction,
    tab: RuntimeAction,
    closed: RuntimeAction,
    pane: RuntimeAction,
    reload: RuntimeAction,
)
    requires
        call_ensures(App::runtime_workspace_focus, (app, id, name), workspace),
        call_ensures(App::runtime_tab_focus, (app, id, name), tab),
        call_ensures(App::runtime_tab_close, (app, id, name), closed),
        call_ensures(App::runtime_pane_focus, (app, id, name), pane),
        call_ensures(App::runtime_server_reload_config, (app, id), reload),
    ensures
        workspace matches RuntimeAction::Dispatch {
            id: told,
            method: Method::WorkspaceFocus(target),
        } && told@ == id@ && target.workspace_id@ == name@,
        tab matches RuntimeAction::Dispatch { id: told, method: Method::TabFocus(target) }
            && told@ == id@ && target.tab_id@ == name@,
        closed matches RuntimeAction::Dispatch { id: told, method: Method::TabClose(target) }
            && told@ == id@ && target.tab_id@ == name@,
        pane matches RuntimeAction::Dispatch { id: told, method: Method::PaneFocus(target) }
            && told@ == id@ && target.pane_id@ == name@,
        reload matches RuntimeAction::Dispatch { id: told, method: Method::ServerReloadConfig }
            && told@ == id@,
{
}

/// Making, naming and moving workspaces and tabs happens here, with the very
/// parameters of the request and under its id.
pub proof fn law_workspaces_are_changed_here(
    app: &App,
    id: &str,
    params: Params,
    workspace_create: RuntimeAction,
    workspace_rename: RuntimeAction,
    workspace_move: RuntimeAction,
    workspace_move_block: RuntimeAction,
    tab_rename: RuntimeAction,
    tab_move: RuntimeAction,
)
    requires
        call_ensures(App::runtime_workspace_create, (app, id, params), workspace_create),
        call_ensures(App::runtime_workspace_rename, (app, id, params), workspace_rename),
        call_ensures(App::runtime_workspace_move, (app, id, params), workspace_move),
        call_ensures(App::runtime_workspace_move_block, (app, id, params), workspace_move_block),
        call_ensures(App::runtime_tab_rename, (app, id, params), tab_rename),
        call_ensures(App::runtime_tab_move, (app, id, params), tab_move),
    ensures
        workspace_create matches RuntimeAction::Dispatch {
            id: told,
            method: Method::WorkspaceCreate(passed),
        } && told@ == id@ && passed.json@ == params.json@,
        workspace_rename matches RuntimeAction::Dispatch {
            id: told,
            method: Method::WorkspaceRename(passed),
        } && told@ == id@ && passed.json@ == params.json@,
        workspace_move matches RuntimeAction::Dispatch {
            id: told,
            method: Method::WorkspaceMove(passed),
        } && told@ == id@ && passed.json@ == params.json@,
        workspace_move_block matches RuntimeAction::Dispatch {
            id: told,
            method: Method::WorkspaceMoveBlock(passed),
        } && told@ == id@ && passed.json@ == params.json@,
        tab_rename matches RuntimeAction::Dispatch { id: told, method: Method::TabRename(passed) }
            && told@ == id@ && passed.json@ == params.json@,
        tab_move matches RuntimeAction::Dispatch { id: told, method: Method::TabMove(passed) }
            && told@ == id@ && passed.json@ == params.json@,
{
}

/// Changing panes, and opening a worktree, happens here, with the very parameters of
/// the request and under its id.
pub proof fn law_panes_are_changed_here(
    app: &App,
    id: &str,
    params: Params,
    pane_rename: RuntimeAction,
    pane_input_set: RuntimeAction,
    pane_focus_direction: RuntimeAction,
    pane_resize: RuntimeAction,
    pane_swap: RuntimeAction,
    pane_zoom: RuntimeAction,
    layout_set_split_ratio: RuntimeAction,
    worktree_open: RuntimeAction,
)
    requires
        call_ensures(App::runtime_pane_rename, (app, id, params), pane_rename),
        call_ensures(App::runtime_pane_input_set, (app, id, params), pane_input_set),
        call_ensures(App::runtime_pane_focus_direction, (app, id, params), pane_focus_direction),
        call_ensures(App::runtime_pane_resize, (app, id, params), pane_resize),
        call_ensures(App::runtime_pane_swap, (app, id, params), pane_swap),
        call_ensures(App::runtime_pane_zoom, (app, id, params), pane_zoom),
        call_ensures(
            App::runtime_layout_set_split_ratio,
            (app, id, params),
            layout_set_split_ratio,
        ),
        call_ensures(App::runtime_worktree_open, (app, id, params), worktree_open),
    ensures
        pane_rename matches RuntimeAction::Dispatch { id: told, method: Method::PaneRename(passed) }
            && told@ == id@ && passed.json@ == params.json@,
        pane_input_set matches RuntimeAction::Dispatch {
            id: told,
            method: Method::PaneInputSet(passed),
        } && told@ == id@ && passed.json@ == params.json@,
        pane_focus_direction matches RuntimeAction::Dispatch {
            id: told,
            method: Method::PaneFocusDirection(passed),
        } && told@ == id@ && passed.json@ == params.json@,
        pane_resize matches RuntimeAction::Dispatch { id: told, method: Method::PaneResize(passed) }
            && told@ == id@ && passed.json@ == params.json@,
        pane_swap matches RuntimeAction::Dispatch { id: told, method: Method::PaneSwap(passed) }
            && told@ == id@ && passed.json@ == params.json@,
        pane_zoom matches RuntimeAction::Dispatch { id: told, method: Method::PaneZoom(passed) }
            && told@ == id@ && passed.json@ == params.json@,
        layout_set_split_ratio matches RuntimeAction::Dispatch {
            id: told,
            method: Method::LayoutSetSplitRatio(passed),
        } && told@ == id@ && passed.json@ == params.json@,
        worktree_open matches RuntimeAction::Dispatch {
            id: told,
            method: Method::WorktreeOpen(passed),
        } && told@ == id@ && passed.json@ == params.json@,
{
}

/// Worktrees are made and removed here, without an answer at once, with the very
/// parameters of the request and under its id.
pub proof fn law_worktrees_are_changed_later(
    app: &App,
    id: &str,
    params: Params,
    worktree_create: RuntimeAction,
    worktree_remove: RuntimeAction,
)
    requires
        call_ensures(App::runtime_worktree_create_deferred, (app, id, params), worktree_create),
        call_ensures(App::runtime_worktree_remove_deferred, (app, id, params), worktree_remove),
    ensures
        worktree_create matches RuntimeAction::DispatchDeferred {
            id: told,
            method: Method::WorktreeCreate(passed),
        } && told@ == id@ && passed.json@ == params.json@,
        worktree_remove matches RuntimeAction::DispatchDeferred {
            id: told,
            method: Method::WorktreeRemove(passed),
        } && told@ == id@ && passed.json@ == params.json@,
{
}

/// The two ways to carry a mutation out here, and the one to leave it to an origin,
/// keep the request: its id here, its method either way.
pub proof fn law_requests_are_passed_on_as_they_are(
    app: &App,
    id: &str,
    method: Method,
    key: OriginKey,
    now: RuntimeAction,
    later: RuntimeAction,
    away: RuntimeAction,
)
    requires
        call_ensures(App::dispatch_runtime_mutation, (app, id, method), now),
        call_ensures(App::dispatch_deferred_runtime_mutation, (app, id, method), later),
        call_ensures(App::route_foreign_structure_action, (app, key, method), away),
    ensures
        now@ matches ActionView::Dispatch { id: told, method: passed } && told == id@ && passed
            == method@,
        later@ matches ActionView::DispatchDeferred { id: told, method: passed } && told == id@
            && passed == method@,
        away@ matches ActionView::Route { origin_key, method: passed, timeout_secs, socket_dir }
            && origin_key == key@ && passed == method@ && timeout_secs == 3 && socket_dir
            == app@.federation_socket_dir,
{
}

/// The hub is seen as what is held, field by field.
pub proof fn law_what_is_seen_is_held(app: App)
    ensures
        app@.federation_enabled == app.state.federation_enabled,
        app@.workspaces == workspace_rows(app.state.workspaces@),
        app@.active == app.state.active,
        app@.terminals == terminal_rows(app.state.terminals@),
        app@.federation_socket_dir == path_or_none(app.federation_socket_dir),
{
}

/// Optional texts and paths are taken as they are.
pub proof fn law_what_is_handed_in_is_taken(text: &str, path: UnixPath)
    ensures
        borrowed_or_none(Some(text)) == Some(text@),
        borrowed_or_none(None) is None,
        path_or_none(Some(path)) == Some(path@),
        path_or_none(None) is None,
{
}

/// Whom a mutation concerns: the origin and the raw id that the id of the concerned
/// workspace holds, where federation is enabled and it holds them; else nobody.
pub proof fn law_whom_a_mutation_concerns(app: AppView, workspace_id: Option<Seq<char>>)
    ensures
        foreign_target(app, workspace_id) is Some <==> app.federation_enabled && concerned(
            app,
            workspace_id,
        ) is Some && parsed(concerned(app, workspace_id)->0) is Some,
        foreign_target(app, workspace_id) is Some ==> foreign_target(app, workspace_id) == parsed(
            concerned(app, workspace_id)->0,
        ),
{
}

/// What concerns no origin is carried out here, under the id of the request and just as it
/// was requested.
pub proof fn law_what_concerns_no_origin_is_done_here(
    app: AppView,
    id: Seq<char>,
    workspace_id: Seq<char>,
    tab: TabCreateView,
    pane_id: Seq<char>,
    split: PaneSplitView,
)
    ensures
        foreign_target(app, Some(workspace_id)) is None ==> close_workspace(app, id, workspace_id)
            == (ActionView::Dispatch { id, method: MethodView::WorkspaceClose(workspace_id) }),
        foreign_target(app, tab.workspace_id) is None ==> create_tab(app, id, tab) == (
        ActionView::Dispatch { id, method: MethodView::TabCreate(tab) }),
        foreign_target(app, None) is None ==> close_pane(app, id, pane_id) == (
        ActionView::Dispatch { id, method: MethodView::PaneClose(pane_id) }),
        foreign_target(app, split.workspace_id) is None ==> split_pane(app, id, split) == (
        ActionView::Dispatch { id, method: MethodView::PaneSplit(split) }),
{
}

/// Without a focused pane, or without a terminal of the id that it shows, no pane is named
/// to an origin.
pub proof fn law_unknown_panes_are_not_named(app: AppView)
    ensures
        focused_terminal(app) is None ==> focused_remote_pane(app) is None,
        focused_terminal(app) matches Some(id) ==> (forall|i: int|
            0 <= i < app.terminals.len() ==> (#[trigger] app.terminals[i]).0 != id)
            ==> focused_remote_pane(app) is None,
        app.active is None ==> focused_remote_pane(app) is None,
        app.active matches Some(index) && index >= app.workspaces.len() ==> focused_remote_pane(app)
            is None,
{
    if let Some(id) = focused_terminal(app) {
        if forall|i: int| 0 <= i < app.terminals.len() ==> (#[trigger] app.terminals[i]).0 != id {
            lemma_no_terminal(app.terminals, id);
        }
    }
}

proof fn lemma_no_terminal(rows: Seq<(Seq<char>, TerminalView)>, id: Seq<char>)
    requires
        forall|i: int| 0 <= i < rows.len() ==> (#[trigger] rows[i]).0 != id,
    ensures
        terminal_with(rows, id) is None,
    decreases rows.len(),
{
    if rows.len() > 0 {
        let rest = rows.drop_first();
        assert(rows[0].0 != id);
        assert forall|i: int| 0 <= i < rest.len() implies (#[trigger] rest[i]).0 != id by {
            assert(rows[i + 1].0 != id);
        }
        lemma_no_terminal(rest, id);
    }
}

/// Closing a foreign workspace, and splitting a pane in one, asks the origin that its id
/// holds, for the workspace of the raw id; a split keeps its target, where it has one, and
/// its options.
pub proof fn law_foreign_workspaces_are_changed_as_requested(
    app: &App,
    id: &str,
    workspace_id: String,
    params: PaneSplitParams,
    key: Seq<char>,
    raw: Seq<char>,
    closed: RuntimeAction,
    split: RuntimeAction,
)
    requires
        app.state.federation_enabled,
        parsed(workspace_id@) == Some((key, raw)),
        params.workspace_id is Some,
        params.workspace_id->0@ == workspace_id@,
        call_ensures(App::runtime_workspace_close, (app, id, workspace_id), closed),
        call_ensures(App::runtime_pane_split, (app, id, params), split),
    ensures
        ({
            &&& closed matches RuntimeAction::Route {
                origin_key,
                method: Method::WorkspaceClose(target),
                ..
            }
            &&& origin_key@ == key
            &&& target.workspace_id@ == raw
        }),
        ({
            &&& split matches RuntimeAction::Route {
                origin_key,
                method: Method::PaneSplit(made),
                ..
            }
            &&& origin_key@ == key
            &&& made.workspace_id is Some && made.workspace_id->0@ == raw
            &&& params.target_pane_id is Some ==> made.target_pane_id is Some
                && made.target_pane_id->0@ == params.target_pane_id->0@
            &&& made.options.json@ == params.options.json@
        }),
{
    assert(foreign_target(app@, Some(workspace_id@)) == Some((key, raw)));
    assert(foreign_target(app@, params@.workspace_id) == Some((key, raw)));
    assert(closed@ is Route && closed is Route);
    assert(closed->Route_method@ is WorkspaceClose && closed->Route_method is WorkspaceClose);
    assert(split@ is Route && split is Route);
    assert(split->Route_method@ is PaneSplit && split->Route_method is PaneSplit);
    let made = split->Route_method->PaneSplit_0;
    assert(made@ == split->Route_method@->PaneSplit_0);
    assert(made@.target_pane_id == text_or_none(made.target_pane_id));
}

/// Closing a pane while the active workspace is the hub's own closes that very pane, here.
pub proof fn law_local_panes_are_closed_here(
    app: &App,
    id: &str,
    pane_id: String,
    r: RuntimeAction,
)
    requires
        foreign_target(app@, None) is None,
        call_ensures(App::runtime_pane_close, (app, id, pane_id), r),
    ensures
        r matches RuntimeAction::Dispatch { id: told, method: Method::PaneClose(target) } && told@
            == id@ && target.pane_id@ == pane_id@,
{
    assert(r@ is Dispatch && r is Dispatch);
    assert(r->Dispatch_method@ is PaneClose && r->Dispatch_method is PaneClose);
}

} // verus!
