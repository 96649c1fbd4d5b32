//! Terminals: their ids and what the hub keeps of each.
use vstd::prelude::*;

use crate::path::UnixPath;
use crate::text::{copy_option, same_text, text_or_none};

verus! {

/// The id of a terminal: a text that its server minted, or that text
/// namespaced by its origin.
#[derive(Debug, Hash)]
pub struct TerminalId {
    text: String,
}

impl View for TerminalId {
    type V = Seq<char>;

    closed spec fn view(&self) -> Seq<char> {
        self.text@
    }
}

impl TerminalId {
    pub fn from_string(text: &str) -> (r: TerminalId)
        ensures
            r@ == text@,
    {
        TerminalId { text: text.to_owned() }
    }

    pub fn as_str(&self) -> (r: &str)
        ensures
            r@ == self@,
    {
        self.text.as_str()
    }
}

impl Clone for TerminalId {
    fn clone(&self) -> (r: Self)
        ensures
            r == *self,
    {
        TerminalId { text: self.text.clone() }
    }
}

impl PartialEq for TerminalId {
    fn eq(&self, other: &Self) -> (r: bool) {
        self.text == other.text
    }
}

impl vstd::std_specs::cmp::PartialEqSpecImpl for TerminalId {
    open spec fn obeys_eq_spec() -> bool {
        true
    }

    open spec fn eq_spec(&self, other: &Self) -> bool {
        self@ == other@
    }
}

impl Eq for TerminalId {

}

/// Each of a row of terminal ids, as text.
pub open spec fn id_texts(v: Seq<TerminalId>) -> Seq<Seq<char>> {
    v.map_values(|t: TerminalId| t@)
}

/// What an agent is doing.
#[derive(Debug, Clone, Copy, PartialEq, Eq, Structural)]
pub enum AgentState {
    Unknown,
    Idle,
    Working,
    Blocked,
}

/// A coding agent, as the hub's label parser names it. It is only carried along.
#[derive(Debug, Clone, Copy, PartialEq, Eq, Structural)]
pub enum Agent {
    Claude,
    /// Another agent, by the number that the hub knows it by.
    Other(u32),
}

/// What the hub's label parser makes of the labels that it was asked about.
/// Where a label stands more than once, the first counts.
#[derive(Debug)]
pub struct AgentTable {
    pub rows: Vec<(String, Option<Agent>)>,
}

/// What the parser makes of each label, as text.
pub type AgentsView = Seq<(Seq<char>, Option<Agent>)>;

/// Each of a row of labels with what the parser makes of it.
pub open spec fn agent_rows(rows: Seq<(String, Option<Agent>)>) -> AgentsView {
    rows.map_values(|row: (String, Option<Agent>)| (row.0@, row.1))
}

impl View for AgentTable {
    type V = AgentsView;

    open spec fn view(&self) -> AgentsView {
        agent_rows(self.rows@)
    }
}

/// What the parser makes of a label; nothing where it was not asked.
pub open spec fn agent_named(agents: AgentsView, label: Seq<char>) -> Option<Agent>
    decreases agents.len(),
{
    if agents.len() == 0 {
        None
    } else if agents[0].0 == label {
        agents[0].1
    } else {
        agent_named(agents.drop_first(), label)
    }
}

/// The agent that the parser sees in `label`, if it recognizes one.
pub fn parse_agent_label(agents: &AgentTable, label: &str) -> (r: Option<Agent>)
    ensures
        r == agent_named(agents@, label@),
{
    let ghost all = agents@;
    let mut i: usize = 0;
    assert(all.skip(0) == all);
    while i < agents.rows.len()
        invariant
            i <= agents.rows@.len(),
            all == agents@,
            agent_named(all, label@) == agent_named(all.skip(i as int), label@),
        decreases agents.rows@.len() - i,
    {
        let ghost rest = all.skip(i as int);
        assert(rest[0] == (agents.rows@[i as int].0@, agents.rows@[i as int].1));
        if same_text(agents.rows[i].0.as_str(), label) {
            return agents.rows[i].1;
        }
        assert(rest.drop_first() == all.skip(i + 1));
        i = i + 1;
    }
    None
}

/// What the hub keeps of a terminal.
#[derive(Debug)]
pub struct TerminalState {
    pub id: TerminalId,
    pub cwd: UnixPath,
    pub state: AgentState,
    pub detected_agent: Option<Agent>,
    pub manual_label: Option<String>,
    pub agent_name: Option<String>,
    /// For a foreign terminal, the id that its pane has on its own server.
    pub foreign_remote_pane_id: Option<String>,
}

/// A terminal, as text.
pub struct TerminalView {
    pub id: Seq<char>,
    pub cwd: Seq<char>,
    pub state: AgentState,
    pub detected_agent: Option<Agent>,
    pub manual_label: Option<Seq<char>>,
    pub agent_name: Option<Seq<char>>,
    pub foreign_remote_pane_id: Option<Seq<char>>,
}

impl View for TerminalState {
    type V = TerminalView;

    open spec fn view(&self) -> TerminalView {
        TerminalView {
            id: self.id@,
            cwd: self.cwd@,
            state: self.state,
            detected_agent: self.detected_agent,
            manual_label: text_or_none(self.manual_label),
            agent_name: text_or_none(self.agent_name),
            foreign_remote_pane_id: text_or_none(self.foreign_remote_pane_id),
        }
    }
}

impl TerminalState {
    /// A terminal of which only its id and directory are known.
    pub fn new(id: TerminalId, cwd: UnixPath) -> (r: TerminalState)
        ensures
            r@ == (TerminalView {
                id: id@,
                cwd: cwd@,
                state: AgentState::Unknown,
                detected_agent: None,
                manual_label: None,
                agent_name: None,
                foreign_remote_pane_id: None,
            }),
    {
        TerminalState {
            id,
            cwd,
            state: AgentState::Unknown,
            detected_agent: None,
            manual_label: None,
            agent_name: None,
            foreign_remote_pane_id: None,
        }
    }
}

impl Clone for TerminalState {
    fn clone(&self) -> (r: Self)
        ensures
            r == *self,
    {
        TerminalState {
            id: self.id.clone(),
            cwd: self.cwd.clone(),
            state: self.state,
            detected_agent: self.detected_agent,
            manual_label: copy_option(&self.manual_label),
            agent_name: copy_option(&self.agent_name),
            foreign_remote_pane_id: copy_option(&self.foreign_remote_pane_id),
        }
    }
}

/// What the parser makes of a label is what the first row for the label says, and
/// nothing where it has no row.
pub proof fn law_the_first_row_for_a_label_counts(agents: AgentsView, label: Seq<char>, k: int)
    ensures
        0 <= k < agents.len() && agents[k].0 == label && (forall|i: int|
            0 <= i < k ==> (#[trigger] agents[i]).0 != label) ==> agent_named(agents, label)
            == agents[k].1,
        (forall|i: int| 0 <= i < agents.len() ==> (#[trigger] agents[i]).0 != label)
            ==> agent_named(agents, label) is None,
    decreases agents.len(),
{
    if agents.len() > 0 {
        let rest = agents.drop_first();
        law_the_first_row_for_a_label_counts(rest, label, k - 1);
        assert(forall|i: int| 0 <= i < rest.len() ==> #[trigger] rest[i] == agents[i + 1]);
    }
}

/// A new terminal has its id and its directory, and nothing else is known of it.
pub proof fn law_new_terminals_claim_nothing(id: TerminalId, cwd: UnixPath, r: TerminalState)
    requires
        call_ensures(TerminalState::new, (id, cwd), r),
    ensures
        r.id@ == id@,
        r.cwd@ == cwd@,
        r.state is Unknown,
        r.detected_agent is None,
        r.manual_label is None,
        r.agent_name is None,
        r.foreign_remote_pane_id is None,
{
    assert(r@.id == r.id@ && r@.cwd == r.cwd@ && r@.state == r.state);
    assert(r@.detected_agent == r.detected_agent);
    assert(r@.manual_label is Some <==> r.manual_label is Some);
    assert(r@.agent_name is Some <==> r.agent_name is Some);
    assert(r@.foreign_remote_pane_id is Some <==> r.foreign_remote_pane_id is Some);
}

/// A terminal is seen as what is held, field by field.
pub proof fn law_what_is_seen_is_held(terminal: TerminalState)
    ensures
        terminal@.id == terminal.id@,
        terminal@.cwd == terminal.cwd@,
        terminal@.state == terminal.state,
        terminal@.detected_agent == terminal.detected_agent,
        terminal@.manual_label == text_or_none(terminal.manual_label),
        terminal@.agent_name == text_or_none(terminal.agent_name),
        terminal@.foreign_remote_pane_id == text_or_none(terminal.foreign_remote_pane_id),
{
}

/// Terminal ids and agent labels are seen each in its place.
pub proof fn law_rows_are_seen_in_their_places(
    ids: Seq<TerminalId>,
    rows: Seq<(String, Option<Agent>)>,
)
    ensures
        id_texts(ids).len() == ids.len(),
        forall|i: int| 0 <= i < ids.len() ==> #[trigger] id_texts(ids)[i] == ids[i]@,
        agent_rows(rows).len() == rows.len(),
        forall|i: int|
            0 <= i < rows.len() ==> #[trigger] agent_rows(rows)[i] == (rows[i].0@, rows[i].1),
{
}

} // verus!
