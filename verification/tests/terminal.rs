use std::collections::HashSet;

use herdr_federation::terminal::{parse_agent_label, Agent, AgentTable, TerminalId};

#[test]
fn agents_are_what_the_parser_made_of_their_label() {
    let agents = AgentTable {
        rows: vec![
            ("first".to_string(), Some(Agent::Claude)),
            ("second".to_string(), Some(Agent::Other(7))),
            ("third".to_string(), None),
            ("third".to_string(), Some(Agent::Claude)),
        ],
    };
    assert_eq!(parse_agent_label(&agents, "first"), Some(Agent::Claude));
    assert_eq!(parse_agent_label(&agents, "second"), Some(Agent::Other(7)));
    assert_eq!(parse_agent_label(&agents, "third"), None);
    assert_eq!(parse_agent_label(&agents, "First"), None);
    assert_eq!(parse_agent_label(&agents, ""), None);
    assert_eq!(parse_agent_label(&agents, "firsts"), None);
    assert_eq!(parse_agent_label(&AgentTable { rows: vec![] }, "first"), None);
}

#[test]
fn terminal_ids_can_be_hashed() {
    let ids: HashSet<TerminalId> =
        ["a", "b", "a"].iter().map(|text| TerminalId::from_string(text)).collect();
    assert_eq!(ids.len(), 2);
}
