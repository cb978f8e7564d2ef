# knowledge-cli

A knowledge base of JSON-LD records (decisions, facts, assumptions, meetings,
actions and people), each stored in a file of its own and listed in an index,
linked by typed relations, and queried as a graph. A terminal wizard (`ui`)
fills in a record form and asks an agent for a rationale.

The library under `src/` is written in Verus, and its contracts are proved:

- `json`, `text`, `vocabulary`: the JSON document model, text operations and
  the closed word lists.
- `validation`: the record rules, stated exactly by `record_check`.
- `records`, `commands`: building records from command options, the index,
  linking records, resolving record paths.
- `stamp`: why the verdict on a new record does not depend on its random
  identifier or on the clock reading it was stamped with.
- `index`, `search`, `graph`, `reach`, `order`: `list`, `search`, `links`,
  `neighbors`, `path` and `validate-graph` over the index and the link graph
  (breadth-first search with shortest distances, cycle detection).
- `guide`, `messages`: the usage guide and the error messages.
- `form`, `screen`, `inference`: the wizard's form, its screen texts, and the
  rationale search (keywords, local matches, prompts, and the decisions on the
  agent's answers).
- `wizard`: the wizard's key handling, as a step from state and key to the
  next state and what the program around it has to do.
- `laws`: properties that relate several operations.

`app/` holds the programs: the `knowledge-cli` command line (files, clap,
serde) and, when run under the name `ui`, the terminal wizard (ratatui,
crossterm, the agent process).
