//! Fleet federation: the agent sessions of remote servers, gathered into the
//! sidebar of one local hub.
pub mod api;
pub mod control;
pub mod diagnostics;
pub mod discovery;
pub mod fleet;
pub mod grouping;
pub mod ingest;
pub mod json;
pub mod keyed;
pub mod label;
pub mod layout;
pub mod live_view;
pub mod namespace;
pub mod observe;
pub mod origin;
pub mod panes;
pub mod path;
pub mod poll;
pub mod projection;
pub mod protocol;
pub mod reconnect;
pub mod registry;
pub mod relay;
pub mod runtime_mutations;
pub mod seqs;
pub mod session;
pub mod snapshot;
pub mod status;
pub mod terminal;
pub mod text;
pub mod workspace;
