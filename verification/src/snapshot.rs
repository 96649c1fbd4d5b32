//! Version-tolerant reading of a remote server's `session.snapshot`.
//!
//! The API answers `{ "result": { "snapshot": { .. } } }`. Members beyond those
//! that are read here are ignored, and every field that is read has a default,
//! so drift of the remote's protocol is no failure.
use vstd::prelude::*;

use crate::json::{
    agree, check_record, decoded_list, earlier, fault, fault_of, field_of, first_of, is_record,
    json_document, json_tree, json_trees, law_lists_are_read_in_order, lemma_fault_in_list,
    lemma_same_fields, lemma_same_lists, lemma_same_readings, list_field, may_say, member,
    member_of, number_field, optional_text_field, parse_json, read_list, read_number,
    read_optional_text, read_text, record_fault, same_but_floats, same_field, says, text_field,
    wrong_type, JsonView, NumberView,
};
use crate::text::{copy_option, text_or_none};

verus! {

/// Why the text of an answer is no snapshot.
#[derive(Debug)]
pub enum DecodeError {
    /// The answer is no JSON document; the parser's message.
    Json(String),
    /// `result.snapshot`, or a field of it, has the wrong type; the decoder's
    /// message.
    Shape(String),
    /// There are more pane entries than can be numbered.
    TooManyPanes,
}

/// Failure decoding a remote `session.snapshot` API response.
#[derive(Debug)]
pub enum IngestError {
    /// The body is no JSON, or `result.snapshot` has not the shape of a
    /// snapshot.
    Deserialize(DecodeError),
    /// The body is JSON but has no `result.snapshot`.
    MissingSnapshot,
}

/// A failure, as text.
pub enum IngestErrorView {
    NotJson(Seq<char>),
    Shape(Seq<char>),
    TooManyPanes,
    MissingSnapshot,
}

impl View for IngestError {
    type V = IngestErrorView;

    open spec fn view(&self) -> IngestErrorView {
        match self {
            IngestError::Deserialize(DecodeError::Json(message)) => IngestErrorView::NotJson(
                message@,
            ),
            IngestError::Deserialize(DecodeError::Shape(message)) => IngestErrorView::Shape(
                message@,
            ),
            IngestError::Deserialize(DecodeError::TooManyPanes) => IngestErrorView::TooManyPanes,
            IngestError::MissingSnapshot => IngestErrorView::MissingSnapshot,
        }
    }
}

/// The failure in words.
pub open spec fn ingest_error_text(error: IngestErrorView) -> Seq<char> {
    match error {
        IngestErrorView::NotJson(message) => "failed to decode remote snapshot: "@ + message,
        IngestErrorView::Shape(message) => "failed to decode remote snapshot: "@ + message,
        IngestErrorView::TooManyPanes => "failed to decode remote snapshot: "@
            + "too many pane entries"@,
        IngestErrorView::MissingSnapshot => "remote API response had no result.snapshot object"@,
    }
}

impl IngestError {
    /// The failure in words.
    pub fn to_string(&self) -> (r: String)
        ensures
            r@ == ingest_error_text(self@),
    {
        match self {
            IngestError::Deserialize(error) => {
                let mut r = "failed to decode remote snapshot: ".to_owned();
                match error {
                    DecodeError::Json(message) => r.append(message.as_str()),
                    DecodeError::Shape(message) => r.append(message.as_str()),
                    DecodeError::TooManyPanes => r.append("too many pane entries"),
                }
                r
            },
            IngestError::MissingSnapshot => {
                "remote API response had no result.snapshot object".to_owned()
            },
        }
    }
}

/// A workspace of the remote.
#[derive(Debug)]
pub struct RemoteWorkspace {
    pub workspace_id: String,
    pub label: String,
    pub active_tab_id: String,
}

/// A workspace entry, as text.
#[verifier::ext_equal]
pub struct RemoteWorkspaceView {
    pub workspace_id: Seq<char>,
    pub label: Seq<char>,
    pub active_tab_id: Seq<char>,
}

impl View for RemoteWorkspace {
    type V = RemoteWorkspaceView;

    open spec fn view(&self) -> RemoteWorkspaceView {
        RemoteWorkspaceView {
            workspace_id: self.workspace_id@,
            label: self.label@,
            active_tab_id: self.active_tab_id@,
        }
    }
}

impl Default for RemoteWorkspace {
    fn default() -> (r: Self)
        ensures
            r@ == (RemoteWorkspaceView {
                workspace_id: Seq::empty(),
                label: Seq::empty(),
                active_tab_id: Seq::empty(),
            }),
    {
        let r = RemoteWorkspace {
            workspace_id: String::new(),
            label: String::new(),
            active_tab_id: String::new(),
        };
        assert(r@.workspace_id == Seq::<char>::empty());
        assert(r@.label == Seq::<char>::empty());
        assert(r@.active_tab_id == Seq::<char>::empty());
        r
    }
}

impl Clone for RemoteWorkspace {
    fn clone(&self) -> (r: Self)
        ensures
            r == *self,
    {
        RemoteWorkspace {
            workspace_id: self.workspace_id.clone(),
            label: self.label.clone(),
            active_tab_id: self.active_tab_id.clone(),
        }
    }
}

/// What a JSON value says as a workspace entry, or what is wrong with it.
pub open spec fn decoded_workspace(value: JsonView) -> Result<RemoteWorkspaceView, Seq<char>> {
    let workspace_id = text_field(field_of(value, "workspace_id"@, 0));
    let label = text_field(field_of(value, "label"@, 1));
    let active_tab_id = text_field(field_of(value, "active_tab_id"@, 2));
    let by_name = fault_of(workspace_id);
    let by_name = earlier(fault_of(label), by_name);
    let by_name = earlier(fault_of(active_tab_id), by_name);
    let by_place = fault_of(active_tab_id);
    let by_place = earlier(fault_of(label), by_place);
    let by_place = earlier(fault_of(workspace_id), by_place);
    match record_fault(value, 3, "struct RemoteWorkspace"@, by_name, by_place) {
        Some(fault) => Err(fault),
        None => Ok(
            RemoteWorkspaceView {
                workspace_id: workspace_id->Ok_0,
                label: label->Ok_0,
                active_tab_id: active_tab_id->Ok_0,
            },
        ),
    }
}

/// What was read of a workspace entry, as text.
pub open spec fn workspace_read(read: Result<RemoteWorkspace, String>) -> Result<
    RemoteWorkspaceView,
    Seq<char>,
> {
    match read {
        Ok(entry) => Ok(entry@),
        Err(fault) => Err(fault@),
    }
}

fn decode_workspace(value: &serde_json::Value) -> (r: Result<RemoteWorkspace, String>)
    ensures
        workspace_read(r) == decoded_workspace(json_tree(*value)),
{
    let workspace_id = read_text(value, "workspace_id", 0);
    let label = read_text(value, "label", 1);
    let active_tab_id = read_text(value, "active_tab_id", 2);
    let by_name = fault(&workspace_id);
    let by_name = first_of(fault(&label), by_name);
    let by_name = first_of(fault(&active_tab_id), by_name);
    let by_place = fault(&active_tab_id);
    let by_place = first_of(fault(&label), by_place);
    let by_place = first_of(fault(&workspace_id), by_place);
    match check_record(value, 3, "struct RemoteWorkspace", by_name, by_place) {
        Some(fault) => Err(fault),
        None => Ok(
            RemoteWorkspace {
                workspace_id: workspace_id.unwrap(),
                label: label.unwrap(),
                active_tab_id: active_tab_id.unwrap(),
            },
        ),
    }
}

/// Reads a JSON value as a workspace entry.
pub open spec fn workspace_decoder() -> spec_fn(JsonView) -> Result<
    RemoteWorkspaceView,
    Seq<char>,
> {
    |value: JsonView| decoded_workspace(value)
}

/// Each of a row of workspace entries, as text.
pub open spec fn workspace_views(entries: Seq<RemoteWorkspace>) -> Seq<RemoteWorkspaceView> {
    entries.map_values(|entry: RemoteWorkspace| entry@)
}

/// What was read of a row of workspace entries, as text.
pub open spec fn workspaces_read(read: Result<Vec<RemoteWorkspace>, String>) -> Result<
    Seq<RemoteWorkspaceView>,
    Seq<char>,
> {
    match read {
        Ok(entries) => Ok(workspace_views(entries@)),
        Err(fault) => Err(fault@),
    }
}

/// The workspace entries under a field of a record, or what is wrong with them.
pub open spec fn listed_workspaces(value: JsonView, name: Seq<char>, position: int) -> Result<
    Seq<RemoteWorkspaceView>,
    Seq<char>,
> {
    match list_field(field_of(value, name, position)) {
        Ok(items) => decoded_list(items, workspace_decoder()),
        Err(fault) => Err(fault),
    }
}

fn decode_workspaces(value: &serde_json::Value, name: &str, position: usize) -> (r: Result<
    Vec<RemoteWorkspace>,
    String,
>)
    ensures
        workspaces_read(r) == listed_workspaces(json_tree(*value), name@, position as int),
{
    let mut entries: Vec<RemoteWorkspace> = Vec::new();
    assert(workspace_views(entries@) == Seq::<RemoteWorkspaceView>::empty());
    let items = match read_list(value, name, position) {
        None => {
            return Ok(entries);
        },
        Some(Ok(items)) => items,
        Some(Err(fault)) => {
            return Err(fault);
        },
    };
    let ghost trees = json_trees(items@);
    let mut i: usize = 0;
    while i < items.len()
        invariant
            trees == json_trees(items@),
            i <= items@.len(),
            listed_workspaces(json_tree(*value), name@, position as int) == decoded_list(
                trees,
                workspace_decoder(),
            ),
            decoded_list(trees.take(i as int), workspace_decoder()) == Ok::<_, Seq<char>>(
                workspace_views(entries@),
            ),
        decreases items@.len() - i,
    {
        let ghost before = entries@;
        proof {
            assert(trees[i as int] == json_tree(items@[i as int]));
            assert(trees.take(i + 1).drop_last() == trees.take(i as int));
            assert(trees.take(i + 1).last() == trees[i as int]);
        }
        match decode_workspace(&items[i]) {
            Ok(entry) => {
                entries.push(entry);
                assert(workspace_views(entries@) == workspace_views(before).push(entry@));
            },
            Err(fault) => {
                proof {
                    lemma_fault_in_list(trees, workspace_decoder(), i + 1);
                }
                return Err(fault);
            },
        }
        i = i + 1;
    }
    assert(trees.take(i as int) == trees);
    Ok(entries)
}

/// A tab of the remote.
#[derive(Debug)]
pub struct RemoteTab {
    pub tab_id: String,
    pub workspace_id: String,
    pub label: String,
}

/// A tab entry, as text.
#[verifier::ext_equal]
pub struct RemoteTabView {
    pub tab_id: Seq<char>,
    pub workspace_id: Seq<char>,
    pub label: Seq<char>,
}

impl View for RemoteTab {
    type V = RemoteTabView;

    open spec fn view(&self) -> RemoteTabView {
        RemoteTabView {
            tab_id: self.tab_id@,
            workspace_id: self.workspace_id@,
            label: self.label@,
        }
    }
}

impl Default for RemoteTab {
    fn default() -> (r: Self)
        ensures
            r@ == (RemoteTabView {
                tab_id: Seq::empty(),
                workspace_id: Seq::empty(),
                label: Seq::empty(),
            }),
    {
        let r = RemoteTab {
            tab_id: String::new(),
            workspace_id: String::new(),
            label: String::new(),
        };
        assert(r@.tab_id == Seq::<char>::empty());
        assert(r@.workspace_id == Seq::<char>::empty());
        assert(r@.label == Seq::<char>::empty());
        r
    }
}

impl Clone for RemoteTab {
    fn clone(&self) -> (r: Self)
        ensures
            r == *self,
    {
        RemoteTab {
            tab_id: self.tab_id.clone(),
            workspace_id: self.workspace_id.clone(),
            label: self.label.clone(),
        }
    }
}

/// What a JSON value says as a tab entry, or what is wrong with it.
pub open spec fn decoded_tab(value: JsonView) -> Result<RemoteTabView, Seq<char>> {
    let tab_id = text_field(field_of(value, "tab_id"@, 0));
    let workspace_id = text_field(field_of(value, "workspace_id"@, 1));
    let label = text_field(field_of(value, "label"@, 2));
    let by_name = fault_of(workspace_id);
    let by_name = earlier(fault_of(tab_id), by_name);
    let by_name = earlier(fault_of(label), by_name);
    let by_place = fault_of(label);
    let by_place = earlier(fault_of(workspace_id), by_place);
    let by_place = earlier(fault_of(tab_id), by_place);
    match record_fault(value, 3, "struct RemoteTab"@, by_name, by_place) {
        Some(fault) => Err(fault),
        None => Ok(
            RemoteTabView {
                tab_id: tab_id->Ok_0,
                workspace_id: workspace_id->Ok_0,
                label: label->Ok_0,
            },
        ),
    }
}

/// What was read of a tab entry, as text.
pub open spec fn tab_read(read: Result<RemoteTab, String>) -> Result<RemoteTabView, Seq<char>> {
    match read {
        Ok(entry) => Ok(entry@),
        Err(fault) => Err(fault@),
    }
}

fn decode_tab(value: &serde_json::Value) -> (r: Result<RemoteTab, String>)
    ensures
        tab_read(r) == decoded_tab(json_tree(*value)),
{
    let tab_id = read_text(value, "tab_id", 0);
    let workspace_id = read_text(value, "workspace_id", 1);
    let label = read_text(value, "label", 2);
    let by_name = fault(&workspace_id);
    let by_name = first_of(fault(&tab_id), by_name);
    let by_name = first_of(fault(&label), by_name);
    let by_place = fault(&label);
    let by_place = first_of(fault(&workspace_id), by_place);
    let by_place = first_of(fault(&tab_id), by_place);
    match check_record(value, 3, "struct RemoteTab", by_name, by_place) {
        Some(fault) => Err(fault),
        None => Ok(
            RemoteTab {
                tab_id: tab_id.unwrap(),
                workspace_id: workspace_id.unwrap(),
                label: label.unwrap(),
            },
        ),
    }
}

/// Reads a JSON value as a tab entry.
pub open spec fn tab_decoder() -> spec_fn(JsonView) -> Result<RemoteTabView, Seq<char>> {
    |value: JsonView| decoded_tab(value)
}

/// Each of a row of tab entries, as text.
pub open spec fn tab_views(entries: Seq<RemoteTab>) -> Seq<RemoteTabView> {
    entries.map_values(|entry: RemoteTab| entry@)
}

/// What was read of a row of tab entries, as text.
pub open spec fn tabs_read(read: Result<Vec<RemoteTab>, String>) -> Result<
    Seq<RemoteTabView>,
    Seq<char>,
> {
    match read {
        Ok(entries) => Ok(tab_views(entries@)),
        Err(fault) => Err(fault@),
    }
}

/// The tab entries under a field of a record, or what is wrong with them.
pub open spec fn listed_tabs(value: JsonView, name: Seq<char>, position: int) -> Result<
    Seq<RemoteTabView>,
    Seq<char>,
> {
    match list_field(field_of(value, name, position)) {
        Ok(items) => decoded_list(items, tab_decoder()),
        Err(fault) => Err(fault),
    }
}

fn decode_tabs(value: &serde_json::Value, name: &str, position: usize) -> (r: Result<
    Vec<RemoteTab>,
    String,
>)
    ensures
        tabs_read(r) == listed_tabs(json_tree(*value), name@, position as int),
{
    let mut entries: Vec<RemoteTab> = Vec::new();
    assert(tab_views(entries@) == Seq::<RemoteTabView>::empty());
    let items = match read_list(value, name, position) {
        None => {
            return Ok(entries);
        },
        Some(Ok(items)) => items,
        Some(Err(fault)) => {
            return Err(fault);
        },
    };
    let ghost trees = json_trees(items@);
    let mut i: usize = 0;
    while i < items.len()
        invariant
            trees == json_trees(items@),
            i <= items@.len(),
            listed_tabs(json_tree(*value), name@, position as int) == decoded_list(
                trees,
                tab_decoder(),
            ),
            decoded_list(trees.take(i as int), tab_decoder()) == Ok::<_, Seq<char>>(
                tab_views(entries@),
            ),
        decreases items@.len() - i,
    {
        let ghost before = entries@;
        proof {
            assert(trees[i as int] == json_tree(items@[i as int]));
            assert(trees.take(i + 1).drop_last() == trees.take(i as int));
            assert(trees.take(i + 1).last() == trees[i as int]);
        }
        match decode_tab(&items[i]) {
            Ok(entry) => {
                entries.push(entry);
                assert(tab_views(entries@) == tab_views(before).push(entry@));
            },
            Err(fault) => {
                proof {
                    lemma_fault_in_list(trees, tab_decoder(), i + 1);
                }
                return Err(fault);
            },
        }
        i = i + 1;
    }
    assert(trees.take(i as int) == trees);
    Ok(entries)
}

/// A pane of the remote. Entries of `panes` carry a `label`; entries of `agents`
/// carry a `name` and the authoritative agent fields.
#[derive(Debug)]
pub struct RemotePane {
    pub pane_id: String,
    pub tab_id: String,
    pub workspace_id: String,
    pub terminal_id: String,
    pub agent: Option<String>,
    pub agent_status: String,
    pub cwd: Option<String>,
    pub label: Option<String>,
    pub name: Option<String>,
}

/// A pane entry, as text.
#[verifier::ext_equal]
pub struct RemotePaneView {
    pub pane_id: Seq<char>,
    pub tab_id: Seq<char>,
    pub workspace_id: Seq<char>,
    pub terminal_id: Seq<char>,
    pub agent: Option<Seq<char>>,
    pub agent_status: Seq<char>,
    pub cwd: Option<Seq<char>>,
    pub label: Option<Seq<char>>,
    pub name: Option<Seq<char>>,
}

impl View for RemotePane {
    type V = RemotePaneView;

    open spec fn view(&self) -> RemotePaneView {
        RemotePaneView {
            pane_id: self.pane_id@,
            tab_id: self.tab_id@,
            workspace_id: self.workspace_id@,
            terminal_id: self.terminal_id@,
            agent: text_or_none(self.agent),
            agent_status: self.agent_status@,
            cwd: text_or_none(self.cwd),
            label: text_or_none(self.label),
            name: text_or_none(self.name),
        }
    }
}

impl Default for RemotePane {
    fn default() -> (r: Self)
        ensures
            r@ == (RemotePaneView {
                pane_id: Seq::empty(),
                tab_id: Seq::empty(),
                workspace_id: Seq::empty(),
                terminal_id: Seq::empty(),
                agent: None,
                agent_status: Seq::empty(),
                cwd: None,
                label: None,
                name: None,
            }),
    {
        let r = RemotePane {
            pane_id: String::new(),
            tab_id: String::new(),
            workspace_id: String::new(),
            terminal_id: String::new(),
            agent: None,
            agent_status: String::new(),
            cwd: None,
            label: None,
            name: None,
        };
        assert(r@.pane_id == Seq::<char>::empty());
        assert(r@.tab_id == Seq::<char>::empty());
        assert(r@.workspace_id == Seq::<char>::empty());
        assert(r@.terminal_id == Seq::<char>::empty());
        assert(r@.agent_status == Seq::<char>::empty());
        r
    }
}

impl Clone for RemotePane {
    fn clone(&self) -> (r: Self)
        ensures
            r == *self,
    {
        RemotePane {
            pane_id: self.pane_id.clone(),
            tab_id: self.tab_id.clone(),
            workspace_id: self.workspace_id.clone(),
            terminal_id: self.terminal_id.clone(),
            agent: copy_option(&self.agent),
            agent_status: self.agent_status.clone(),
            cwd: copy_option(&self.cwd),
            label: copy_option(&self.label),
            name: copy_option(&self.name),
        }
    }
}

/// What a JSON value says as a pane entry, or what is wrong with it.
pub open spec fn decoded_pane(value: JsonView) -> Result<RemotePaneView, Seq<char>> {
    let pane_id = text_field(field_of(value, "pane_id"@, 0));
    let tab_id = text_field(field_of(value, "tab_id"@, 1));
    let workspace_id = text_field(field_of(value, "workspace_id"@, 2));
    let terminal_id = text_field(field_of(value, "terminal_id"@, 3));
    let agent = optional_text_field(field_of(value, "agent"@, 4));
    let agent_status = text_field(field_of(value, "agent_status"@, 5));
    let cwd = optional_text_field(field_of(value, "cwd"@, 6));
    let label = optional_text_field(field_of(value, "label"@, 7));
    let name = optional_text_field(field_of(value, "name"@, 8));
    let by_name = fault_of(workspace_id);
    let by_name = earlier(fault_of(terminal_id), by_name);
    let by_name = earlier(fault_of(tab_id), by_name);
    let by_name = earlier(fault_of(pane_id), by_name);
    let by_name = earlier(fault_of(name), by_name);
    let by_name = earlier(fault_of(label), by_name);
    let by_name = earlier(fault_of(cwd), by_name);
    let by_name = earlier(fault_of(agent_status), by_name);
    let by_name = earlier(fault_of(agent), by_name);
    let by_place = fault_of(name);
    let by_place = earlier(fault_of(label), by_place);
    let by_place = earlier(fault_of(cwd), by_place);
    let by_place = earlier(fault_of(agent_status), by_place);
    let by_place = earlier(fault_of(agent), by_place);
    let by_place = earlier(fault_of(terminal_id), by_place);
    let by_place = earlier(fault_of(workspace_id), by_place);
    let by_place = earlier(fault_of(tab_id), by_place);
    let by_place = earlier(fault_of(pane_id), by_place);
    match record_fault(value, 9, "struct RemotePane"@, by_name, by_place) {
        Some(fault) => Err(fault),
        None => Ok(
            RemotePaneView {
                pane_id: pane_id->Ok_0,
                tab_id: tab_id->Ok_0,
                workspace_id: workspace_id->Ok_0,
                terminal_id: terminal_id->Ok_0,
                agent: agent->Ok_0,
                agent_status: agent_status->Ok_0,
                cwd: cwd->Ok_0,
                label: label->Ok_0,
                name: name->Ok_0,
            },
        ),
    }
}

/// What was read of a pane entry, as text.
pub open spec fn pane_read(read: Result<RemotePane, String>) -> Result<RemotePaneView, Seq<char>> {
    match read {
        Ok(entry) => Ok(entry@),
        Err(fault) => Err(fault@),
    }
}

fn decode_pane(value: &serde_json::Value) -> (r: Result<RemotePane, String>)
    ensures
        pane_read(r) == decoded_pane(json_tree(*value)),
{
    let pane_id = read_text(value, "pane_id", 0);
    let tab_id = read_text(value, "tab_id", 1);
    let workspace_id = read_text(value, "workspace_id", 2);
    let terminal_id = read_text(value, "terminal_id", 3);
    let agent = read_optional_text(value, "agent", 4);
    let agent_status = read_text(value, "agent_status", 5);
    let cwd = read_optional_text(value, "cwd", 6);
    let label = read_optional_text(value, "label", 7);
    let name = read_optional_text(value, "name", 8);
    let by_name = fault(&workspace_id);
    let by_name = first_of(fault(&terminal_id), by_name);
    let by_name = first_of(fault(&tab_id), by_name);
    let by_name = first_of(fault(&pane_id), by_name);
    let by_name = first_of(fault(&name), by_name);
    let by_name = first_of(fault(&label), by_name);
    let by_name = first_of(fault(&cwd), by_name);
    let by_name = first_of(fault(&agent_status), by_name);
    let by_name = first_of(fault(&agent), by_name);
    let by_place = fault(&name);
    let by_place = first_of(fault(&label), by_place);
    let by_place = first_of(fault(&cwd), by_place);
    let by_place = first_of(fault(&agent_status), by_place);
    let by_place = first_of(fault(&agent), by_place);
    let by_place = first_of(fault(&terminal_id), by_place);
    let by_place = first_of(fault(&workspace_id), by_place);
    let by_place = first_of(fault(&tab_id), by_place);
    let by_place = first_of(fault(&pane_id), by_place);
    match check_record(value, 9, "struct RemotePane", by_name, by_place) {
        Some(fault) => Err(fault),
        None => Ok(
            RemotePane {
                pane_id: pane_id.unwrap(),
                tab_id: tab_id.unwrap(),
                workspace_id: workspace_id.unwrap(),
                terminal_id: terminal_id.unwrap(),
                agent: agent.unwrap(),
                agent_status: agent_status.unwrap(),
                cwd: cwd.unwrap(),
                label: label.unwrap(),
                name: name.unwrap(),
            },
        ),
    }
}

/// Reads a JSON value as a pane entry.
pub open spec fn pane_decoder() -> spec_fn(JsonView) -> Result<RemotePaneView, Seq<char>> {
    |value: JsonView| decoded_pane(value)
}

/// Each of a row of pane entries, as text.
pub open spec fn pane_views(entries: Seq<RemotePane>) -> Seq<RemotePaneView> {
    entries.map_values(|entry: RemotePane| entry@)
}

/// What was read of a row of pane entries, as text.
pub open spec fn panes_read(read: Result<Vec<RemotePane>, String>) -> Result<
    Seq<RemotePaneView>,
    Seq<char>,
> {
    match read {
        Ok(entries) => Ok(pane_views(entries@)),
        Err(fault) => Err(fault@),
    }
}

/// The pane entries under a field of a record, or what is wrong with them.
pub open spec fn listed_panes(value: JsonView, name: Seq<char>, position: int) -> Result<
    Seq<RemotePaneView>,
    Seq<char>,
> {
    match list_field(field_of(value, name, position)) {
        Ok(items) => decoded_list(items, pane_decoder()),
        Err(fault) => Err(fault),
    }
}

fn decode_panes(value: &serde_json::Value, name: &str, position: usize) -> (r: Result<
    Vec<RemotePane>,
    String,
>)
    ensures
        panes_read(r) == listed_panes(json_tree(*value), name@, position as int),
{
    let mut entries: Vec<RemotePane> = Vec::new();
    assert(pane_views(entries@) == Seq::<RemotePaneView>::empty());
    let items = match read_list(value, name, position) {
        None => {
            return Ok(entries);
        },
        Some(Ok(items)) => items,
        Some(Err(fault)) => {
            return Err(fault);
        },
    };
    let ghost trees = json_trees(items@);
    let mut i: usize = 0;
    while i < items.len()
        invariant
            trees == json_trees(items@),
            i <= items@.len(),
            listed_panes(json_tree(*value), name@, position as int) == decoded_list(
                trees,
                pane_decoder(),
            ),
            decoded_list(trees.take(i as int), pane_decoder()) == Ok::<_, Seq<char>>(
                pane_views(entries@),
            ),
        decreases items@.len() - i,
    {
        let ghost before = entries@;
        proof {
            assert(trees[i as int] == json_tree(items@[i as int]));
            assert(trees.take(i + 1).drop_last() == trees.take(i as int));
            assert(trees.take(i + 1).last() == trees[i as int]);
        }
        match decode_pane(&items[i]) {
            Ok(entry) => {
                entries.push(entry);
                assert(pane_views(entries@) == pane_views(before).push(entry@));
            },
            Err(fault) => {
                proof {
                    lemma_fault_in_list(trees, pane_decoder(), i + 1);
                }
                return Err(fault);
            },
        }
        i = i + 1;
    }
    assert(trees.take(i as int) == trees);
    Ok(entries)
}

/// Read view of a remote `session.snapshot`.
#[derive(Debug, Clone)]
pub struct RemoteSnapshot {
    /// Remote wire protocol version. Advisory only.
    pub protocol: u32,
    /// Remote version string. Advisory only.
    pub version: String,
    pub workspaces: Vec<RemoteWorkspace>,
    pub tabs: Vec<RemoteTab>,
    pub panes: Vec<RemotePane>,
    pub agents: Vec<RemotePane>,
}

/// A snapshot, as text.
#[verifier::ext_equal]
pub struct SnapshotView {
    pub protocol: u32,
    pub version: Seq<char>,
    pub workspaces: Seq<RemoteWorkspaceView>,
    pub tabs: Seq<RemoteTabView>,
    pub panes: Seq<RemotePaneView>,
    pub agents: Seq<RemotePaneView>,
}

impl View for RemoteSnapshot {
    type V = SnapshotView;

    open spec fn view(&self) -> SnapshotView {
        SnapshotView {
            protocol: self.protocol,
            version: self.version@,
            workspaces: workspace_views(self.workspaces@),
            tabs: tab_views(self.tabs@),
            panes: pane_views(self.panes@),
            agents: pane_views(self.agents@),
        }
    }
}

impl SnapshotView {
    /// The pane entries can all be numbered from one, with a number left over.
    pub open spec fn numberable(self) -> bool {
        self.panes.len() + self.agents.len() < usize::MAX
    }
}

/// What a JSON value says as a snapshot, or what is wrong with it.
pub open spec fn decoded_snapshot(value: JsonView) -> Result<SnapshotView, Seq<char>> {
    let protocol = number_field(field_of(value, "protocol"@, 0));
    let version = text_field(field_of(value, "version"@, 1));
    let workspaces = listed_workspaces(value, "workspaces"@, 2);
    let tabs = listed_tabs(value, "tabs"@, 3);
    let panes = listed_panes(value, "panes"@, 4);
    let agents = listed_panes(value, "agents"@, 5);
    let by_name = fault_of(workspaces);
    let by_name = earlier(fault_of(version), by_name);
    let by_name = earlier(fault_of(tabs), by_name);
    let by_name = earlier(fault_of(protocol), by_name);
    let by_name = earlier(fault_of(panes), by_name);
    let by_name = earlier(fault_of(agents), by_name);
    let by_place = fault_of(agents);
    let by_place = earlier(fault_of(panes), by_place);
    let by_place = earlier(fault_of(tabs), by_place);
    let by_place = earlier(fault_of(workspaces), by_place);
    let by_place = earlier(fault_of(version), by_place);
    let by_place = earlier(fault_of(protocol), by_place);
    match record_fault(value, 6, "struct RemoteSnapshot"@, by_name, by_place) {
        Some(fault) => Err(fault),
        None => Ok(
            SnapshotView {
                protocol: protocol->Ok_0,
                version: version->Ok_0,
                workspaces: workspaces->Ok_0,
                tabs: tabs->Ok_0,
                panes: panes->Ok_0,
                agents: agents->Ok_0,
            },
        ),
    }
}

/// The outcome of reading a JSON value as a snapshot.
pub open spec fn snapshot_outcome(value: JsonView) -> Result<SnapshotView, IngestErrorView> {
    match decoded_snapshot(value) {
        Err(fault) => Err(IngestErrorView::Shape(fault)),
        Ok(snapshot) => if snapshot.numberable() {
            Ok(snapshot)
        } else {
            Err(IngestErrorView::TooManyPanes)
        },
    }
}

/// The value at `result.snapshot`.
pub open spec fn snapshot_in(root: JsonView) -> Option<JsonView> {
    match member_of(root, "result"@) {
        Some(result) => member_of(result, "snapshot"@),
        None => None,
    }
}

/// The outcome of reading the document of an API response.
pub open spec fn response_outcome(document: Result<JsonView, Seq<char>>) -> Result<
    SnapshotView,
    IngestErrorView,
> {
    match document {
        Err(message) => Err(IngestErrorView::NotJson(message)),
        Ok(root) => match snapshot_in(root) {
            None => Err(IngestErrorView::MissingSnapshot),
            Some(value) => snapshot_outcome(value),
        },
    }
}

/// Whether a result carries what an outcome says.
pub open spec fn carries(
    r: Result<RemoteSnapshot, IngestError>,
    outcome: Result<SnapshotView, IngestErrorView>,
) -> bool {
    match (r, outcome) {
        (Ok(snapshot), Ok(view)) => snapshot@ == view,
        (Err(error), Err(view)) => error@ == view,
        _ => false,
    }
}

fn read_snapshot(value: &serde_json::Value) -> (r: Result<RemoteSnapshot, String>)
    ensures
        match decoded_snapshot(json_tree(*value)) {
            Ok(view) => r matches Ok(snapshot) && snapshot@ == view,
            Err(fault) => r matches Err(found) && found@ == fault,
        },
{
    let protocol = read_number(value, "protocol", 0);
    let version = read_text(value, "version", 1);
    let workspaces = decode_workspaces(value, "workspaces", 2);
    let tabs = decode_tabs(value, "tabs", 3);
    let panes = decode_panes(value, "panes", 4);
    let agents = decode_panes(value, "agents", 5);
    let by_name = fault(&workspaces);
    let by_name = first_of(fault(&version), by_name);
    let by_name = first_of(fault(&tabs), by_name);
    let by_name = first_of(fault(&protocol), by_name);
    let by_name = first_of(fault(&panes), by_name);
    let by_name = first_of(fault(&agents), by_name);
    let by_place = fault(&agents);
    let by_place = first_of(fault(&panes), by_place);
    let by_place = first_of(fault(&tabs), by_place);
    let by_place = first_of(fault(&workspaces), by_place);
    let by_place = first_of(fault(&version), by_place);
    let by_place = first_of(fault(&protocol), by_place);
    match check_record(value, 6, "struct RemoteSnapshot", by_name, by_place) {
        Some(fault) => Err(fault),
        None => Ok(
            RemoteSnapshot {
                protocol: protocol.unwrap(),
                version: version.unwrap(),
                workspaces: workspaces.unwrap(),
                tabs: tabs.unwrap(),
                panes: panes.unwrap(),
                agents: agents.unwrap(),
            },
        ),
    }
}

impl RemoteSnapshot {
    /// Reads a JSON value as a snapshot. Every field has a default, and members
    /// that are no field are ignored.
    pub fn from_value(value: &serde_json::Value) -> (r: Result<RemoteSnapshot, IngestError>)
        ensures
            carries(r, snapshot_outcome(json_tree(*value))),
    {
        match read_snapshot(value) {
            Err(fault) => Err(IngestError::Deserialize(DecodeError::Shape(fault))),
            Ok(snapshot) => {
                assert(snapshot@.panes.len() == snapshot.panes@.len());
                assert(snapshot@.agents.len() == snapshot.agents@.len());
                if snapshot.panes.len() < usize::MAX - snapshot.agents.len() {
                    Ok(snapshot)
                } else {
                    Err(IngestError::Deserialize(DecodeError::TooManyPanes))
                }
            },
        }
    }

    /// Reads the snapshot in a parsed API response.
    pub fn from_response(root: &serde_json::Value) -> (r: Result<RemoteSnapshot, IngestError>)
        ensures
            carries(r, response_outcome(Ok(json_tree(*root)))),
    {
        match member(root, "result") {
            Some(result) => match member(result, "snapshot") {
                Some(value) => RemoteSnapshot::from_value(value),
                None => Err(IngestError::MissingSnapshot),
            },
            None => Err(IngestError::MissingSnapshot),
        }
    }

    /// Reaches `result.snapshot` in a raw API response body and decodes it.
    ///
    /// `MissingSnapshot` when the body is JSON without `result.snapshot`, and
    /// `Deserialize` when it is no JSON or the snapshot cannot be read.
    pub fn from_api_response(body: &str) -> (r: Result<RemoteSnapshot, IngestError>)
        ensures
            carries(r, response_outcome(json_document(body@))),
    {
        match parse_json(body) {
            Ok(root) => RemoteSnapshot::from_response(&root),
            Err(message) => Err(IngestError::Deserialize(DecodeError::Json(message))),
        }
    }
}

impl Default for RemoteSnapshot {
    fn default() -> (r: Self)
        ensures
            r@ == (SnapshotView {
                protocol: 0,
                version: Seq::empty(),
                workspaces: Seq::empty(),
                tabs: Seq::empty(),
                panes: Seq::empty(),
                agents: Seq::empty(),
            }),
    {
        let r = RemoteSnapshot {
            protocol: 0,
            version: String::new(),
            workspaces: Vec::new(),
            tabs: Vec::new(),
            panes: Vec::new(),
            agents: Vec::new(),
        };
        assert(r@.workspaces == Seq::<RemoteWorkspaceView>::empty());
        assert(r@.tabs == Seq::<RemoteTabView>::empty());
        assert(r@.panes == Seq::<RemotePaneView>::empty());
        assert(r@.agents == Seq::<RemotePaneView>::empty());
        r
    }
}

/// An empty snapshot object reads as the empty snapshot: every field has a
/// default, whatever other members the object holds.
pub proof fn law_absent_fields_default(members: Map<Seq<char>, JsonView>)
    requires
        !members.contains_key("protocol"@),
        !members.contains_key("version"@),
        !members.contains_key("workspaces"@),
        !members.contains_key("tabs"@),
        !members.contains_key("panes"@),
        !members.contains_key("agents"@),
    ensures
        snapshot_outcome(JsonView::Object(members)) == Ok::<SnapshotView, IngestErrorView>(
            SnapshotView {
                protocol: 0,
                version: Seq::empty(),
                workspaces: Seq::empty(),
                tabs: Seq::empty(),
                panes: Seq::empty(),
                agents: Seq::empty(),
            },
        ),
{
}

/// The name of a member that is no field of a snapshot.
pub open spec fn is_unknown_member(name: Seq<char>) -> bool {
    &&& name != "protocol"@
    &&& name != "version"@
    &&& name != "workspaces"@
    &&& name != "tabs"@
    &&& name != "panes"@
    &&& name != "agents"@
}

/// Unknown members change nothing: a snapshot with a member that is no field
/// reads as the snapshot without it.
pub proof fn law_unknown_members_are_ignored(
    members: Map<Seq<char>, JsonView>,
    name: Seq<char>,
    extra: JsonView,
)
    requires
        is_unknown_member(name),
    ensures
        snapshot_outcome(JsonView::Object(members.insert(name, extra))) == snapshot_outcome(
            JsonView::Object(members),
        ),
{
    let with = JsonView::Object(members.insert(name, extra));
    let without = JsonView::Object(members);
    assert forall|other: Seq<char>, position: int| other != name implies field_of(
        with,
        other,
        position,
    ) == #[trigger] field_of(without, other, position) by {
        assert(members.insert(name, extra).contains_key(other) == members.contains_key(other));
    }
}

/// The name of a member that is no field of a pane entry.
pub open spec fn is_unknown_pane_member(name: Seq<char>) -> bool {
    &&& name != "pane_id"@
    &&& name != "tab_id"@
    &&& name != "workspace_id"@
    &&& name != "terminal_id"@
    &&& name != "agent"@
    &&& name != "agent_status"@
    &&& name != "cwd"@
    &&& name != "label"@
    &&& name != "name"@
}

/// Unknown members of a pane entry change nothing either.
pub proof fn law_unknown_pane_members_are_ignored(
    members: Map<Seq<char>, JsonView>,
    name: Seq<char>,
    extra: JsonView,
)
    requires
        is_unknown_pane_member(name),
    ensures
        decoded_pane(JsonView::Object(members.insert(name, extra))) == decoded_pane(
            JsonView::Object(members),
        ),
{
    let with = JsonView::Object(members.insert(name, extra));
    let without = JsonView::Object(members);
    assert forall|other: Seq<char>, position: int| other != name implies field_of(
        with,
        other,
        position,
    ) == #[trigger] field_of(without, other, position) by {
        assert(members.insert(name, extra).contains_key(other) == members.contains_key(other));
    }
}

// ---------------------------------------------------------------------------
// Floats

proof fn lemma_same_workspaces(a: JsonView, b: JsonView, depth: nat)
    requires
        same_but_floats(a, b, depth),
    ensures
        agree(decoded_workspace(a), decoded_workspace(b)),
{
    lemma_same_fields(a, b, depth);
    let d = (depth - 1) as nat;
    lemma_same_readings(field_of(a, "workspace_id"@, 0), field_of(b, "workspace_id"@, 0), d);
    lemma_same_readings(field_of(a, "label"@, 1), field_of(b, "label"@, 1), d);
    lemma_same_readings(field_of(a, "active_tab_id"@, 2), field_of(b, "active_tab_id"@, 2), d);
}

proof fn lemma_same_workspace_lists(
    a: JsonView,
    b: JsonView,
    depth: nat,
    name: Seq<char>,
    position: int,
)
    requires
        same_but_floats(a, b, depth),
        position >= 0,
    ensures
        agree(listed_workspaces(a, name, position), listed_workspaces(b, name, position)),
{
    lemma_same_fields(a, b, depth);
    let x = field_of(a, name, position);
    let y = field_of(b, name, position);
    let d = (depth - 1) as nat;
    assert(same_field(x, y, d));
    if let (Some(JsonView::Array(p)), Some(JsonView::Array(q))) = (x, y) {
        let decode = workspace_decoder();
        assert forall|i: int| 0 <= i < p.len() implies agree(
            #[trigger] decode(p[i]),
            decode(q[i]),
        ) by {
            assert(same_but_floats(p[i], q[i], (d - 1) as nat));
            lemma_same_workspaces(p[i], q[i], (d - 1) as nat);
        }
        lemma_same_lists(p, q, decode);
    }
}

proof fn lemma_same_tabs(a: JsonView, b: JsonView, depth: nat)
    requires
        same_but_floats(a, b, depth),
    ensures
        agree(decoded_tab(a), decoded_tab(b)),
{
    lemma_same_fields(a, b, depth);
    let d = (depth - 1) as nat;
    lemma_same_readings(field_of(a, "tab_id"@, 0), field_of(b, "tab_id"@, 0), d);
    lemma_same_readings(field_of(a, "workspace_id"@, 1), field_of(b, "workspace_id"@, 1), d);
    lemma_same_readings(field_of(a, "label"@, 2), field_of(b, "label"@, 2), d);
}

proof fn lemma_same_tab_lists(
    a: JsonView,
    b: JsonView,
    depth: nat,
    name: Seq<char>,
    position: int,
)
    requires
        same_but_floats(a, b, depth),
        position >= 0,
    ensures
        agree(listed_tabs(a, name, position), listed_tabs(b, name, position)),
{
    lemma_same_fields(a, b, depth);
    let x = field_of(a, name, position);
    let y = field_of(b, name, position);
    let d = (depth - 1) as nat;
    assert(same_field(x, y, d));
    if let (Some(JsonView::Array(p)), Some(JsonView::Array(q))) = (x, y) {
        let decode = tab_decoder();
        assert forall|i: int| 0 <= i < p.len() implies agree(
            #[trigger] decode(p[i]),
            decode(q[i]),
        ) by {
            assert(same_but_floats(p[i], q[i], (d - 1) as nat));
            lemma_same_tabs(p[i], q[i], (d - 1) as nat);
        }
        lemma_same_lists(p, q, decode);
    }
}

proof fn lemma_same_panes(a: JsonView, b: JsonView, depth: nat)
    requires
        same_but_floats(a, b, depth),
    ensures
        agree(decoded_pane(a), decoded_pane(b)),
{
    lemma_same_fields(a, b, depth);
    let d = (depth - 1) as nat;
    lemma_same_readings(field_of(a, "pane_id"@, 0), field_of(b, "pane_id"@, 0), d);
    lemma_same_readings(field_of(a, "tab_id"@, 1), field_of(b, "tab_id"@, 1), d);
    lemma_same_readings(field_of(a, "workspace_id"@, 2), field_of(b, "workspace_id"@, 2), d);
    lemma_same_readings(field_of(a, "terminal_id"@, 3), field_of(b, "terminal_id"@, 3), d);
    lemma_same_readings(field_of(a, "agent"@, 4), field_of(b, "agent"@, 4), d);
    lemma_same_readings(field_of(a, "agent_status"@, 5), field_of(b, "agent_status"@, 5), d);
    lemma_same_readings(field_of(a, "cwd"@, 6), field_of(b, "cwd"@, 6), d);
    lemma_same_readings(field_of(a, "label"@, 7), field_of(b, "label"@, 7), d);
    lemma_same_readings(field_of(a, "name"@, 8), field_of(b, "name"@, 8), d);
}

proof fn lemma_same_pane_lists(
    a: JsonView,
    b: JsonView,
    depth: nat,
    name: Seq<char>,
    position: int,
)
    requires
        same_but_floats(a, b, depth),
        position >= 0,
    ensures
        agree(listed_panes(a, name, position), listed_panes(b, name, position)),
{
    lemma_same_fields(a, b, depth);
    let x = field_of(a, name, position);
    let y = field_of(b, name, position);
    let d = (depth - 1) as nat;
    assert(same_field(x, y, d));
    if let (Some(JsonView::Array(p)), Some(JsonView::Array(q))) = (x, y) {
        let decode = pane_decoder();
        assert forall|i: int| 0 <= i < p.len() implies agree(
            #[trigger] decode(p[i]),
            decode(q[i]),
        ) by {
            assert(same_but_floats(p[i], q[i], (d - 1) as nat));
            lemma_same_panes(p[i], q[i], (d - 1) as nat);
        }
        lemma_same_lists(p, q, decode);
    }
}

/// Whether two outcomes are the same, or both failures.
pub open spec fn outcomes_agree(
    a: Result<SnapshotView, IngestErrorView>,
    b: Result<SnapshotView, IngestErrorView>,
) -> bool {
    match (a, b) {
        (Ok(x), Ok(y)) => x == y,
        (Err(_), Err(_)) => true,
        _ => false,
    }
}

/// Nothing is read from a float: two documents that are the same but for these
/// hold the same snapshot, or none of them holds one.
pub proof fn law_floats_do_not_matter(a: JsonView, b: JsonView, depth: nat)
    requires
        same_but_floats(a, b, depth),
    ensures
        outcomes_agree(response_outcome(Ok(a)), response_outcome(Ok(b))),
{
    lemma_same_members(a, b, depth, "result"@);
    if let (Some(x), Some(y)) = (member_of(a, "result"@), member_of(b, "result"@)) {
        let d = (depth - 1) as nat;
        lemma_same_members(x, y, d, "snapshot"@);
        if let (Some(p), Some(q)) = (member_of(x, "snapshot"@), member_of(y, "snapshot"@)) {
            lemma_same_snapshots(p, q, (d - 1) as nat);
        }
    }
}

proof fn lemma_same_members(a: JsonView, b: JsonView, depth: nat, name: Seq<char>)
    requires
        same_but_floats(a, b, depth),
    ensures
        same_field(member_of(a, name), member_of(b, name), (depth - 1) as nat),
{
    if let (JsonView::Object(x), JsonView::Object(y)) = (a, b) {
        assert(x.dom().contains(name) == y.dom().contains(name));
        if x.contains_key(name) {
            assert(same_but_floats(x[name], y[name], (depth - 1) as nat));
        }
    }
}

proof fn lemma_same_snapshots(a: JsonView, b: JsonView, depth: nat)
    requires
        same_but_floats(a, b, depth),
    ensures
        agree(decoded_snapshot(a), decoded_snapshot(b)),
{
    lemma_same_fields(a, b, depth);
    let d = (depth - 1) as nat;
    lemma_same_readings(field_of(a, "protocol"@, 0), field_of(b, "protocol"@, 0), d);
    lemma_same_readings(field_of(a, "version"@, 1), field_of(b, "version"@, 1), d);
    lemma_same_workspace_lists(a, b, depth, "workspaces"@, 2);
    lemma_same_tab_lists(a, b, depth, "tabs"@, 3);
    lemma_same_pane_lists(a, b, depth, "panes"@, 4);
    lemma_same_pane_lists(a, b, depth, "agents"@, 5);
}

// ---------------------------------------------------------------------------
// What is read

/// The first of a row of faults, if there is one.
pub open spec fn first_told(faults: Seq<Option<Seq<char>>>) -> Option<Seq<char>>
    decreases faults.len(),
{
    if faults.len() == 0 {
        None
    } else if faults[0] is Some {
        faults[0]
    } else {
        first_told(faults.drop_first())
    }
}

/// A pane entry is read field by field, each to the letter, by name in an object and by place
/// in an array; what is absent has its default.
pub proof fn law_panes_are_read_to_the_letter(value: JsonView)
    ensures
        decoded_pane(value) matches Ok(read) ==> {
            &&& is_record(value, 9)
            &&& says(field_of(value, "pane_id"@, 0), read.pane_id)
            &&& says(field_of(value, "tab_id"@, 1), read.tab_id)
            &&& says(field_of(value, "workspace_id"@, 2), read.workspace_id)
            &&& says(field_of(value, "terminal_id"@, 3), read.terminal_id)
            &&& may_say(field_of(value, "agent"@, 4), read.agent)
            &&& says(field_of(value, "agent_status"@, 5), read.agent_status)
            &&& may_say(field_of(value, "cwd"@, 6), read.cwd)
            &&& may_say(field_of(value, "label"@, 7), read.label)
            &&& may_say(field_of(value, "name"@, 8), read.name)
        },
{
}

/// A pane entry can be read just where it says something as one.
pub proof fn law_all_panes_that_say_something_are_read(value: JsonView, read: RemotePaneView)
    requires
        is_record(value, 9),
        says(field_of(value, "pane_id"@, 0), read.pane_id),
        says(field_of(value, "tab_id"@, 1), read.tab_id),
        says(field_of(value, "workspace_id"@, 2), read.workspace_id),
        says(field_of(value, "terminal_id"@, 3), read.terminal_id),
        may_say(field_of(value, "agent"@, 4), read.agent),
        says(field_of(value, "agent_status"@, 5), read.agent_status),
        may_say(field_of(value, "cwd"@, 6), read.cwd),
        may_say(field_of(value, "label"@, 7), read.label),
        may_say(field_of(value, "name"@, 8), read.name),
    ensures
        decoded_pane(value) == Ok::<RemotePaneView, Seq<char>>(read),
{
    let found = decoded_pane(value)->Ok_0;
    assert(found.pane_id == read.pane_id);
    assert(found.tab_id == read.tab_id);
    assert(found.workspace_id == read.workspace_id);
    assert(found.terminal_id == read.terminal_id);
    assert(found.agent_status == read.agent_status);
}

/// Of several faults the first is told: by name in an object, by place in an array.
/// Anything else is told by what it is.
pub proof fn law_the_first_fault_of_panes_is_told(value: JsonView)
    ensures
        ({
            let pane_id = fault_of(text_field(field_of(value, "pane_id"@, 0)));
            let tab_id = fault_of(text_field(field_of(value, "tab_id"@, 1)));
            let workspace_id = fault_of(text_field(field_of(value, "workspace_id"@, 2)));
            let terminal_id = fault_of(text_field(field_of(value, "terminal_id"@, 3)));
            let agent = fault_of(optional_text_field(field_of(value, "agent"@, 4)));
            let agent_status = fault_of(text_field(field_of(value, "agent_status"@, 5)));
            let cwd = fault_of(optional_text_field(field_of(value, "cwd"@, 6)));
            let label = fault_of(optional_text_field(field_of(value, "label"@, 7)));
            let name = fault_of(optional_text_field(field_of(value, "name"@, 8)));
            let told = fault_of(decoded_pane(value));
            &&& value is Object ==> told == first_told(
                seq![
                    agent,
                    agent_status,
                    cwd,
                    label,
                    name,
                    pane_id,
                    tab_id,
                    terminal_id,
                    workspace_id,
                ],
            )
            &&& value is Array ==> {
                let by_place = first_told(
                    seq![
                        pane_id,
                        tab_id,
                        workspace_id,
                        terminal_id,
                        agent,
                        agent_status,
                        cwd,
                        label,
                        name,
                    ],
                );
                by_place is Some ==> told == by_place
            }
            &&& !(value is Object) && !(value is Array) ==> told == Some(
                wrong_type(value, "struct RemotePane"@),
            )
        }),
{
    reveal_with_fuel(first_told, 10);
}

/// A workspace entry is read field by field, each to the letter, by name in an object and by place
/// in an array; what is absent has its default.
pub proof fn law_workspaces_are_read_to_the_letter(value: JsonView)
    ensures
        decoded_workspace(value) matches Ok(read) ==> {
            &&& is_record(value, 3)
            &&& says(field_of(value, "workspace_id"@, 0), read.workspace_id)
            &&& says(field_of(value, "label"@, 1), read.label)
            &&& says(field_of(value, "active_tab_id"@, 2), read.active_tab_id)
        },
{
}

/// A workspace entry can be read just where it says something as one.
pub proof fn law_all_workspaces_that_say_something_are_read(
    value: JsonView,
    read: RemoteWorkspaceView,
)
    requires
        is_record(value, 3),
        says(field_of(value, "workspace_id"@, 0), read.workspace_id),
        says(field_of(value, "label"@, 1), read.label),
        says(field_of(value, "active_tab_id"@, 2), read.active_tab_id),
    ensures
        decoded_workspace(value) == Ok::<RemoteWorkspaceView, Seq<char>>(read),
{
    let found = decoded_workspace(value)->Ok_0;
    assert(found.workspace_id == read.workspace_id);
    assert(found.label == read.label);
    assert(found.active_tab_id == read.active_tab_id);
}

/// Of several faults the first is told: by name in an object, by place in an array.
/// Anything else is told by what it is.
pub proof fn law_the_first_fault_of_workspaces_is_told(value: JsonView)
    ensures
        ({
            let workspace_id = fault_of(text_field(field_of(value, "workspace_id"@, 0)));
            let label = fault_of(text_field(field_of(value, "label"@, 1)));
            let active_tab_id = fault_of(text_field(field_of(value, "active_tab_id"@, 2)));
            let told = fault_of(decoded_workspace(value));
            &&& value is Object ==> told == first_told(seq![active_tab_id, label, workspace_id])
            &&& value is Array ==> {
                let by_place = first_told(seq![workspace_id, label, active_tab_id]);
                by_place is Some ==> told == by_place
            }
            &&& !(value is Object) && !(value is Array) ==> told == Some(
                wrong_type(value, "struct RemoteWorkspace"@),
            )
        }),
{
    reveal_with_fuel(first_told, 4);
}

/// A tab entry is read field by field, each to the letter, by name in an object and by place
/// in an array; what is absent has its default.
pub proof fn law_tabs_are_read_to_the_letter(value: JsonView)
    ensures
        decoded_tab(value) matches Ok(read) ==> {
            &&& is_record(value, 3)
            &&& says(field_of(value, "tab_id"@, 0), read.tab_id)
            &&& says(field_of(value, "workspace_id"@, 1), read.workspace_id)
            &&& says(field_of(value, "label"@, 2), read.label)
        },
{
}

/// A tab entry can be read just where it says something as one.
pub proof fn law_all_tabs_that_say_something_are_read(value: JsonView, read: RemoteTabView)
    requires
        is_record(value, 3),
        says(field_of(value, "tab_id"@, 0), read.tab_id),
        says(field_of(value, "workspace_id"@, 1), read.workspace_id),
        says(field_of(value, "label"@, 2), read.label),
    ensures
        decoded_tab(value) == Ok::<RemoteTabView, Seq<char>>(read),
{
    let found = decoded_tab(value)->Ok_0;
    assert(found.tab_id == read.tab_id);
    assert(found.workspace_id == read.workspace_id);
    assert(found.label == read.label);
}

/// Of several faults the first is told: by name in an object, by place in an array.
/// Anything else is told by what it is.
pub proof fn law_the_first_fault_of_tabs_is_told(value: JsonView)
    ensures
        ({
            let tab_id = fault_of(text_field(field_of(value, "tab_id"@, 0)));
            let workspace_id = fault_of(text_field(field_of(value, "workspace_id"@, 1)));
            let label = fault_of(text_field(field_of(value, "label"@, 2)));
            let told = fault_of(decoded_tab(value));
            &&& value is Object ==> told == first_told(seq![label, tab_id, workspace_id])
            &&& value is Array ==> {
                let by_place = first_told(seq![tab_id, workspace_id, label]);
                by_place is Some ==> told == by_place
            }
            &&& !(value is Object) && !(value is Array) ==> told == Some(
                wrong_type(value, "struct RemoteTab"@),
            )
        }),
{
    reveal_with_fuel(first_told, 4);
}

/// Whether a field that may be absent lists entries: each of them in its place where it is
/// there, and none where it is not.
pub open spec fn lists<T>(
    field: Option<JsonView>,
    decode: spec_fn(JsonView) -> Result<T, Seq<char>>,
    entries: Seq<T>,
) -> bool {
    match field {
        Some(JsonView::Array(items)) => {
            &&& items.len() == entries.len()
            &&& forall|i: int|
                0 <= i < items.len() ==> decode(#[trigger] items[i]) == Ok::<T, Seq<char>>(
                    entries[i],
                )
        },
        Some(_) => false,
        None => entries.len() == 0,
    }
}

/// A snapshot is read field by field, by name in an object and by place in an array: the
/// protocol and the version as they stand, and each list entry by entry.
pub proof fn law_snapshots_are_read_to_the_letter(value: JsonView)
    ensures
        decoded_snapshot(value) matches Ok(read) ==> {
            &&& is_record(value, 6)
            &&& match field_of(value, "protocol"@, 0) {
                Some(number) => number == JsonView::Number(
                    NumberView::Natural(read.protocol as u64),
                ),
                None => read.protocol == 0,
            }
            &&& says(field_of(value, "version"@, 1), read.version)
            &&& lists(
                field_of(value, "workspaces"@, 2),
                |entry: JsonView| decoded_workspace(entry),
                read.workspaces,
            )
            &&& lists(
                field_of(value, "tabs"@, 3),
                |entry: JsonView| decoded_tab(entry),
                read.tabs,
            )
            &&& lists(
                field_of(value, "panes"@, 4),
                |entry: JsonView| decoded_pane(entry),
                read.panes,
            )
            &&& lists(
                field_of(value, "agents"@, 5),
                |entry: JsonView| decoded_pane(entry),
                read.agents,
            )
        },
{
    lemma_entries(field_of(value, "workspaces"@, 2), workspace_decoder());
    lemma_entries(field_of(value, "tabs"@, 3), tab_decoder());
    lemma_entries(field_of(value, "panes"@, 4), pane_decoder());
    lemma_entries(field_of(value, "agents"@, 5), pane_decoder());
}

/// The entries of a list, each read in its place.
proof fn lemma_entries<T>(
    field: Option<JsonView>,
    decode: spec_fn(JsonView) -> Result<T, Seq<char>>,
)
    ensures
        list_field(field) matches Ok(items) ==> (decoded_list(items, decode) matches Ok(entries)
            ==> lists(field, decode, entries)),
{
    if let Ok(items) = list_field(field) {
        law_lists_are_read_in_order(items, decode);
        if let Ok(entries) = decoded_list(items, decode) {
            assert forall|i: int| 0 <= i < items.len() implies decode(#[trigger] items[i]) == Ok::<
                T,
                Seq<char>,
            >(entries[i]) by {
                assert(decode(items[i]) == Ok::<T, Seq<char>>(entries[i]));
            }
        }
    }
}

/// A snapshot can be read just where it is a record and each of its fields can be read. Of
/// several faults the first is told: by name in an object, by place in an array.
pub proof fn law_the_first_fault_of_a_snapshot_is_told(value: JsonView)
    ensures
        ({
            let protocol = fault_of(number_field(field_of(value, "protocol"@, 0)));
            let version = fault_of(text_field(field_of(value, "version"@, 1)));
            let workspaces = fault_of(listed_workspaces(value, "workspaces"@, 2));
            let tabs = fault_of(listed_tabs(value, "tabs"@, 3));
            let panes = fault_of(listed_panes(value, "panes"@, 4));
            let agents = fault_of(listed_panes(value, "agents"@, 5));
            let told = fault_of(decoded_snapshot(value));
            let by_place = first_told(seq![protocol, version, workspaces, tabs, panes, agents]);
            &&& value is Object ==> told == first_told(
                seq![agents, panes, protocol, tabs, version, workspaces],
            )
            &&& value is Array && by_place is Some ==> told == by_place
            &&& decoded_snapshot(value) is Ok <==> is_record(value, 6) && by_place is None
            &&& !(value is Object) && !(value is Array) ==> told == Some(
                wrong_type(value, "struct RemoteSnapshot"@),
            )
        }),
{
    reveal_with_fuel(first_told, 7);
}

/// Where the snapshot of an answer lies: at `snapshot` in `result`, both objects. An
/// answer without it has no snapshot, whatever else it holds, and what is no JSON is told
/// in the parser's words.
pub proof fn law_where_the_snapshot_lies(root: JsonView, message: Seq<char>)
    ensures
        response_outcome(Err(message)) == Err::<SnapshotView, IngestErrorView>(
            IngestErrorView::NotJson(message),
        ),
        ({
            let there = {
                &&& root is Object
                &&& root->Object_0.contains_key("result"@)
                &&& root->Object_0["result"@] is Object
                &&& root->Object_0["result"@]->Object_0.contains_key("snapshot"@)
            };
            let value = root->Object_0["result"@]->Object_0["snapshot"@];
            &&& !there ==> response_outcome(Ok(root)) == Err::<SnapshotView, IngestErrorView>(
                IngestErrorView::MissingSnapshot,
            )
            &&& there ==> match decoded_snapshot(value) {
                Err(fault) => response_outcome(Ok(root)) == Err::<SnapshotView, IngestErrorView>(
                    IngestErrorView::Shape(fault),
                ),
                Ok(snapshot) => {
                    &&& snapshot.panes.len() + snapshot.agents.len() < usize::MAX
                        ==> response_outcome(Ok(root)) == Ok::<SnapshotView, IngestErrorView>(
                        snapshot,
                    )
                    &&& snapshot.panes.len() + snapshot.agents.len() >= usize::MAX
                        ==> response_outcome(Ok(root)) == Err::<SnapshotView, IngestErrorView>(
                        IngestErrorView::TooManyPanes,
                    )
                },
            }
        }),
{
}

/// A failure in words ends with what it is about, word for word.
pub proof fn law_decode_failures_are_told_in_full(message: Seq<char>)
    ensures
        "failed to decode remote snapshot: "@.is_prefix_of(
            ingest_error_text(IngestErrorView::NotJson(message)),
        ),
        message.is_suffix_of(ingest_error_text(IngestErrorView::NotJson(message))),
        ingest_error_text(IngestErrorView::NotJson(message)).len() == 34 + message.len(),
        ingest_error_text(IngestErrorView::Shape(message)) == ingest_error_text(
            IngestErrorView::NotJson(message),
        ),
        ingest_error_text(IngestErrorView::TooManyPanes) == ingest_error_text(
            IngestErrorView::NotJson("too many pane entries"@),
        ),
        ingest_error_text(IngestErrorView::MissingSnapshot)
            == "remote API response had no result.snapshot object"@,
{
    reveal_strlit("failed to decode remote snapshot: ");
}

/// The entries of a snapshot are seen as what is held, field by field.
pub proof fn law_what_is_seen_is_held(
    workspace: RemoteWorkspace,
    tab: RemoteTab,
    pane: RemotePane,
    snapshot: RemoteSnapshot,
)
    ensures
        workspace@.workspace_id == workspace.workspace_id@,
        workspace@.label == workspace.label@,
        workspace@.active_tab_id == workspace.active_tab_id@,
        tab@.tab_id == tab.tab_id@,
        tab@.workspace_id == tab.workspace_id@,
        tab@.label == tab.label@,
        pane@.pane_id == pane.pane_id@,
        pane@.tab_id == pane.tab_id@,
        pane@.workspace_id == pane.workspace_id@,
        pane@.terminal_id == pane.terminal_id@,
        pane@.agent == text_or_none(pane.agent),
        pane@.agent_status == pane.agent_status@,
        pane@.cwd == text_or_none(pane.cwd),
        pane@.label == text_or_none(pane.label),
        pane@.name == text_or_none(pane.name),
        snapshot@.protocol == snapshot.protocol,
        snapshot@.version == snapshot.version@,
        snapshot@.workspaces == workspace_views(snapshot.workspaces@),
        snapshot@.tabs == tab_views(snapshot.tabs@),
        snapshot@.panes == pane_views(snapshot.panes@),
        snapshot@.agents == pane_views(snapshot.agents@),
{
}

/// The entries of lists are seen each in its place.
pub proof fn law_rows_are_seen_in_their_places(
    workspaces: Seq<RemoteWorkspace>,
    tabs: Seq<RemoteTab>,
    panes: Seq<RemotePane>,
)
    ensures
        workspace_views(workspaces).len() == workspaces.len(),
        forall|i: int|
            0 <= i < workspaces.len() ==> #[trigger] workspace_views(workspaces)[i]
                == workspaces[i]@,
        tab_views(tabs).len() == tabs.len(),
        forall|i: int| 0 <= i < tabs.len() ==> #[trigger] tab_views(tabs)[i] == tabs[i]@,
        pane_views(panes).len() == panes.len(),
        forall|i: int| 0 <= i < panes.len() ==> #[trigger] pane_views(panes)[i] == panes[i]@,
{
}

/// What comes of reading an answer: a snapshot with the fields and as many entries as are
/// written there, or the failure that is told.
pub proof fn law_reading_brings_what_is_written(
    body: &str,
    r: Result<RemoteSnapshot, IngestError>,
)
    requires
        call_ensures(RemoteSnapshot::from_api_response, (body,), r),
    ensures
        match response_outcome(json_document(body@)) {
            Ok(written) => {
                &&& r matches Ok(snapshot)
                &&& snapshot.protocol == written.protocol
                &&& snapshot.version@ == written.version
                &&& snapshot.workspaces@.len() == written.workspaces.len()
                &&& snapshot.tabs@.len() == written.tabs.len()
                &&& snapshot.panes@.len() == written.panes.len()
                &&& snapshot.agents@.len() == written.agents.len()
                &&& forall|i: int|
                    0 <= i < snapshot.panes@.len() ==> (#[trigger] snapshot.panes@[i])@
                        == written.panes[i]
                &&& forall|i: int|
                    0 <= i < snapshot.agents@.len() ==> (#[trigger] snapshot.agents@[i])@
                        == written.agents[i]
            },
            Err(IngestErrorView::MissingSnapshot) => r matches Err(IngestError::MissingSnapshot),
            Err(IngestErrorView::NotJson(message)) => {
                &&& r matches Err(IngestError::Deserialize(DecodeError::Json(told)))
                &&& told@ == message
            },
            Err(IngestErrorView::Shape(message)) => {
                &&& r matches Err(IngestError::Deserialize(DecodeError::Shape(told)))
                &&& told@ == message
            },
            Err(IngestErrorView::TooManyPanes) => r matches Err(
                IngestError::Deserialize(DecodeError::TooManyPanes),
            ),
        },
{
    if let Ok(snapshot) = r {
        let written = snapshot@;
        assert(written.workspaces.len() == snapshot.workspaces@.len());
        assert(written.tabs.len() == snapshot.tabs@.len());
        assert forall|i: int| 0 <= i < snapshot.panes@.len() implies (
        #[trigger] snapshot.panes@[i])@ == written.panes[i] by {
        }
        assert forall|i: int| 0 <= i < snapshot.agents@.len() implies (
        #[trigger] snapshot.agents@[i])@ == written.agents[i] by {
        }
    }
}

} // verus!
