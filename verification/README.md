# herdr federation

Gathers the agent sessions of remote herdr servers into the sidebar of one local
hub. The topology is a star: the hub asks every origin for a snapshot and shows
what it says; origins never talk to each other.

`src/` is the library, verified with Verus. It makes every decision and touches
no socket, thread or file. `app/` is the runtime around it. `tests/` runs the
library on concrete values.

## The library

- `text`, `path`, `seqs`, `json`: text as sequences of characters, paths by
  their components, sequences in first-seen order, JSON documents.
- `origin`, `keyed`, `registry`, `discovery`: who the origins are, by durable
  key; the set of them, and what a discovery pass changes in it.
- `namespace`: foreign ids as `fed~<key>~<raw>`, and back.
- `snapshot`, `panes`, `grouping`, `ingest`, `projection`: from the text of an
  answer to the rows of the sidebar, and what holds of every such projection.
- `layout`, `terminal`, `workspace`: the values that the rows are made of.
- `poll`, `status`, `diagnostics`: the fleet as a whole.
- `protocol`, `live_view`, `session`, `observe`, `control`, `reconnect`: live
  sessions on a remote's client socket, as machines from event to action.
- `api`, `relay`, `runtime_mutations`: requests, and where a mutation goes.
- `label`, `fleet`: what a person reads.

Every function states its result exactly, over the mathematical view of its
arguments, but for the time that the machine's clock tells. The laws of the library are public proof functions whose names start
with `law_`.

## What is trusted

The contracts of a few functions of `serde_json` and of std are stated without
proof: in `json` (`serde_json::from_str`, `serde_json::from_value`,
`serde_json::to_string` and the accessors of `serde_json::Value`), in `origin` (how `{:?}` quotes a text), in
`relay` (`String::from_utf8_lossy`) and in `status` (the clock).
