//! The requests of the JSON API that federation makes or routes.
use vstd::prelude::*;

use crate::path::UnixPath;
use crate::text::{copy_option, text_or_none};

verus! {

/// Names a workspace.
#[derive(Debug)]
pub struct WorkspaceTarget {
    pub workspace_id: String,
}

impl View for WorkspaceTarget {
    type V = Seq<char>;

    open spec fn view(&self) -> Seq<char> {
        self.workspace_id@
    }
}

impl Clone for WorkspaceTarget {
    fn clone(&self) -> (r: Self)
        ensures
            r == *self,
    {
        WorkspaceTarget { workspace_id: self.workspace_id.clone() }
    }
}

/// Names a tab.
#[derive(Debug)]
pub struct TabTarget {
    pub tab_id: String,
}

impl View for TabTarget {
    type V = Seq<char>;

    open spec fn view(&self) -> Seq<char> {
        self.tab_id@
    }
}

impl Clone for TabTarget {
    fn clone(&self) -> (r: Self)
        ensures
            r == *self,
    {
        TabTarget { tab_id: self.tab_id.clone() }
    }
}

/// Names a pane.
#[derive(Debug)]
pub struct PaneTarget {
    pub pane_id: String,
}

impl View for PaneTarget {
    type V = Seq<char>;

    open spec fn view(&self) -> Seq<char> {
        self.pane_id@
    }
}

impl Clone for PaneTarget {
    fn clone(&self) -> (r: Self)
        ensures
            r == *self,
    {
        PaneTarget { pane_id: self.pane_id.clone() }
    }
}

/// Parameters that federation only passes on, as JSON.
#[derive(Debug)]
pub struct Params {
    pub json: String,
}

impl View for Params {
    type V = Seq<char>;

    open spec fn view(&self) -> Seq<char> {
        self.json@
    }
}

impl Clone for Params {
    fn clone(&self) -> (r: Self)
        ensures
            r == *self,
    {
        Params { json: self.json.clone() }
    }
}

/// Parameters of a request to make a tab.
#[derive(Debug)]
pub struct TabCreateParams {
    /// The workspace; the active one where there is none.
    pub workspace_id: Option<String>,
    pub cwd: Option<String>,
    pub focus: bool,
    pub label: Option<String>,
    pub env: Vec<(String, String)>,
}

/// Parameters of a request to make a tab, as text.
pub struct TabCreateView {
    pub workspace_id: Option<Seq<char>>,
    pub cwd: Option<Seq<char>>,
    pub focus: bool,
    pub label: Option<Seq<char>>,
    pub env: Seq<(String, String)>,
}

impl View for TabCreateParams {
    type V = TabCreateView;

    open spec fn view(&self) -> TabCreateView {
        TabCreateView {
            workspace_id: text_or_none(self.workspace_id),
            cwd: text_or_none(self.cwd),
            focus: self.focus,
            label: text_or_none(self.label),
            env: self.env@,
        }
    }
}

impl Clone for TabCreateParams {
    fn clone(&self) -> (r: Self)
        ensures
            r@ == self@,
    {
        let mut env: Vec<(String, String)> = Vec::new();
        let mut i: usize = 0;
        while i < self.env.len()
            invariant
                i <= self.env@.len(),
                env@ == self.env@.take(i as int),
            decreases self.env@.len() - i,
        {
            env.push((self.env[i].0.clone(), self.env[i].1.clone()));
            assert(env@ == self.env@.take(i + 1));
            i = i + 1;
        }
        assert(env@ == self.env@);
        TabCreateParams {
            workspace_id: copy_option(&self.workspace_id),
            cwd: copy_option(&self.cwd),
            focus: self.focus,
            label: copy_option(&self.label),
            env,
        }
    }
}

/// Parameters of a request to split a pane.
#[derive(Debug)]
pub struct PaneSplitParams {
    /// The workspace; the active one where there is none.
    pub workspace_id: Option<String>,
    /// The pane to split; the focused one where there is none.
    pub target_pane_id: Option<String>,
    /// The direction, the ratio and what else the split is to be like.
    pub options: Params,
}

/// Parameters of a request to split a pane, as text.
pub struct PaneSplitView {
    pub workspace_id: Option<Seq<char>>,
    pub target_pane_id: Option<Seq<char>>,
    pub options: Seq<char>,
}

impl View for PaneSplitParams {
    type V = PaneSplitView;

    open spec fn view(&self) -> PaneSplitView {
        PaneSplitView {
            workspace_id: text_or_none(self.workspace_id),
            target_pane_id: text_or_none(self.target_pane_id),
            options: self.options@,
        }
    }
}

impl Clone for PaneSplitParams {
    fn clone(&self) -> (r: Self)
        ensures
            r == *self,
    {
        PaneSplitParams {
            workspace_id: copy_option(&self.workspace_id),
            target_pane_id: copy_option(&self.target_pane_id),
            options: self.options.clone(),
        }
    }
}

/// Parameters of a request to type into a pane.
#[derive(Debug)]
pub struct PaneSendInputParams {
    pub pane_id: String,
    pub text: String,
    pub keys: Vec<String>,
}

/// Parameters of a request to type into a pane, as text.
pub struct PaneSendInputView {
    pub pane_id: Seq<char>,
    pub text: Seq<char>,
    pub keys: Seq<String>,
}

impl View for PaneSendInputParams {
    type V = PaneSendInputView;

    open spec fn view(&self) -> PaneSendInputView {
        PaneSendInputView { pane_id: self.pane_id@, text: self.text@, keys: self.keys@ }
    }
}

impl Clone for PaneSendInputParams {
    fn clone(&self) -> (r: Self)
        ensures
            r@ == self@,
    {
        let mut keys: Vec<String> = Vec::new();
        let mut i: usize = 0;
        while i < self.keys.len()
            invariant
                i <= self.keys@.len(),
                keys@ == self.keys@.take(i as int),
            decreases self.keys@.len() - i,
        {
            keys.push(self.keys[i].clone());
            assert(keys@ == self.keys@.take(i + 1));
            i = i + 1;
        }
        assert(keys@ == self.keys@);
        PaneSendInputParams { pane_id: self.pane_id.clone(), text: self.text.clone(), keys }
    }
}

/// What a request asks for.
#[derive(Debug)]
pub enum Method {
    SessionSnapshot,
    ServerReloadConfig,
    WorkspaceFocus(WorkspaceTarget),
    WorkspaceCreate(Params),
    WorkspaceRename(Params),
    WorkspaceMove(Params),
    WorkspaceMoveBlock(Params),
    WorkspaceClose(WorkspaceTarget),
    TabCreate(TabCreateParams),
    TabFocus(TabTarget),
    TabRename(Params),
    TabMove(Params),
    TabClose(TabTarget),
    PaneSendInput(PaneSendInputParams),
    PaneFocus(PaneTarget),
    PaneClose(PaneTarget),
    PaneRename(Params),
    PaneInputSet(Params),
    PaneFocusDirection(Params),
    PaneResize(Params),
    PaneSwap(Params),
    PaneSplit(PaneSplitParams),
    PaneZoom(Params),
    LayoutSetSplitRatio(Params),
    WorktreeCreate(Params),
    WorktreeOpen(Params),
    WorktreeRemove(Params),
}

/// What a request asks for, as text.
pub enum MethodView {
    SessionSnapshot,
    ServerReloadConfig,
    WorkspaceFocus(Seq<char>),
    WorkspaceCreate(Seq<char>),
    WorkspaceRename(Seq<char>),
    WorkspaceMove(Seq<char>),
    WorkspaceMoveBlock(Seq<char>),
    WorkspaceClose(Seq<char>),
    TabCreate(TabCreateView),
    TabFocus(Seq<char>),
    TabRename(Seq<char>),
    TabMove(Seq<char>),
    TabClose(Seq<char>),
    PaneSendInput(PaneSendInputView),
    PaneFocus(Seq<char>),
    PaneClose(Seq<char>),
    PaneRename(Seq<char>),
    PaneInputSet(Seq<char>),
    PaneFocusDirection(Seq<char>),
    PaneResize(Seq<char>),
    PaneSwap(Seq<char>),
    PaneSplit(PaneSplitView),
    PaneZoom(Seq<char>),
    LayoutSetSplitRatio(Seq<char>),
    WorktreeCreate(Seq<char>),
    WorktreeOpen(Seq<char>),
    WorktreeRemove(Seq<char>),
}

impl View for Method {
    type V = MethodView;

    open spec fn view(&self) -> MethodView {
        match self {
            Method::SessionSnapshot => MethodView::SessionSnapshot,
            Method::ServerReloadConfig => MethodView::ServerReloadConfig,
            Method::WorkspaceFocus(params) => MethodView::WorkspaceFocus(params@),
            Method::WorkspaceCreate(params) => MethodView::WorkspaceCreate(params@),
            Method::WorkspaceRename(params) => MethodView::WorkspaceRename(params@),
            Method::WorkspaceMove(params) => MethodView::WorkspaceMove(params@),
            Method::WorkspaceMoveBlock(params) => MethodView::WorkspaceMoveBlock(params@),
            Method::WorkspaceClose(params) => MethodView::WorkspaceClose(params@),
            Method::TabCreate(params) => MethodView::TabCreate(params@),
            Method::TabFocus(params) => MethodView::TabFocus(params@),
            Method::TabRename(params) => MethodView::TabRename(params@),
            Method::TabMove(params) => MethodView::TabMove(params@),
            Method::TabClose(params) => MethodView::TabClose(params@),
            Method::PaneSendInput(params) => MethodView::PaneSendInput(params@),
            Method::PaneFocus(params) => MethodView::PaneFocus(params@),
            Method::PaneClose(params) => MethodView::PaneClose(params@),
            Method::PaneRename(params) => MethodView::PaneRename(params@),
            Method::PaneInputSet(params) => MethodView::PaneInputSet(params@),
            Method::PaneFocusDirection(params) => MethodView::PaneFocusDirection(params@),
            Method::PaneResize(params) => MethodView::PaneResize(params@),
            Method::PaneSwap(params) => MethodView::PaneSwap(params@),
            Method::PaneSplit(params) => MethodView::PaneSplit(params@),
            Method::PaneZoom(params) => MethodView::PaneZoom(params@),
            Method::LayoutSetSplitRatio(params) => MethodView::LayoutSetSplitRatio(params@),
            Method::WorktreeCreate(params) => MethodView::WorktreeCreate(params@),
            Method::WorktreeOpen(params) => MethodView::WorktreeOpen(params@),
            Method::WorktreeRemove(params) => MethodView::WorktreeRemove(params@),
        }
    }
}

impl Clone for Method {
    fn clone(&self) -> (r: Self)
        ensures
            r@ == self@,
    {
        match self {
            Method::SessionSnapshot => Method::SessionSnapshot,
            Method::ServerReloadConfig => Method::ServerReloadConfig,
            Method::WorkspaceFocus(params) => Method::WorkspaceFocus(params.clone()),
            Method::WorkspaceCreate(params) => Method::WorkspaceCreate(params.clone()),
            Method::WorkspaceRename(params) => Method::WorkspaceRename(params.clone()),
            Method::WorkspaceMove(params) => Method::WorkspaceMove(params.clone()),
            Method::WorkspaceMoveBlock(params) => Method::WorkspaceMoveBlock(params.clone()),
            Method::WorkspaceClose(params) => Method::WorkspaceClose(params.clone()),
            Method::TabCreate(params) => Method::TabCreate(params.clone()),
            Method::TabFocus(params) => Method::TabFocus(params.clone()),
            Method::TabRename(params) => Method::TabRename(params.clone()),
            Method::TabMove(params) => Method::TabMove(params.clone()),
            Method::TabClose(params) => Method::TabClose(params.clone()),
            Method::PaneSendInput(params) => Method::PaneSendInput(params.clone()),
            Method::PaneFocus(params) => Method::PaneFocus(params.clone()),
            Method::PaneClose(params) => Method::PaneClose(params.clone()),
            Method::PaneRename(params) => Method::PaneRename(params.clone()),
            Method::PaneInputSet(params) => Method::PaneInputSet(params.clone()),
            Method::PaneFocusDirection(params) => Method::PaneFocusDirection(params.clone()),
            Method::PaneResize(params) => Method::PaneResize(params.clone()),
            Method::PaneSwap(params) => Method::PaneSwap(params.clone()),
            Method::PaneSplit(params) => Method::PaneSplit(params.clone()),
            Method::PaneZoom(params) => Method::PaneZoom(params.clone()),
            Method::LayoutSetSplitRatio(params) => Method::LayoutSetSplitRatio(params.clone()),
            Method::WorktreeCreate(params) => Method::WorktreeCreate(params.clone()),
            Method::WorktreeOpen(params) => Method::WorktreeOpen(params.clone()),
            Method::WorktreeRemove(params) => Method::WorktreeRemove(params.clone()),
        }
    }
}

/// A request.
#[derive(Debug)]
pub struct Request {
    pub id: String,
    pub method: Method,
}

/// A request, as text.
pub struct RequestView {
    pub id: Seq<char>,
    pub method: MethodView,
}

impl View for Request {
    type V = RequestView;

    open spec fn view(&self) -> RequestView {
        RequestView { id: self.id@, method: self.method@ }
    }
}

/// A request and the socket it is to be made on.
#[derive(Debug)]
pub struct ApiCall {
    pub socket: UnixPath,
    pub request: Request,
}

/// A request and its socket, as text.
pub struct CallView {
    pub socket: Seq<char>,
    pub request: RequestView,
}

impl View for ApiCall {
    type V = CallView;

    open spec fn view(&self) -> CallView {
        CallView { socket: self.socket@, request: self.request@ }
    }
}

/// Requests are seen as what is held, field by field.
pub proof fn law_what_is_seen_is_held(
    tab: TabCreateParams,
    split: PaneSplitParams,
    input: PaneSendInputParams,
    request: Request,
    call: ApiCall,
)
    ensures
        tab@.workspace_id == text_or_none(tab.workspace_id),
        tab@.cwd == text_or_none(tab.cwd),
        tab@.focus == tab.focus,
        tab@.label == text_or_none(tab.label),
        tab@.env == tab.env@,
        split@.workspace_id == text_or_none(split.workspace_id),
        split@.target_pane_id == text_or_none(split.target_pane_id),
        split@.options == split.options@,
        input@.pane_id == input.pane_id@,
        input@.text == input.text@,
        input@.keys == input.keys@,
        request@.id == request.id@,
        request@.method == request.method@,
        call@.socket == call.socket@,
        call@.request == call.request@,
{
}

} // verus!
