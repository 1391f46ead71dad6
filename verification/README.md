# grizzly-agent

An agent harness and its evaluation core, written as a verified library.

- `src/` is the library, checked by Verus: conversation types and the
  request rules (`message`, `request`), the failure taxonomy (`failure`),
  the retry decision (`retry`), folding a streamed completion back together
  (`accumulator`, `replay`), the tool model and registry (`tools`), the
  system prompt (`section`), the turn loop as a state machine (`turn`,
  `trace`), and the eval scoring core (`verdict`, `check`, `case`,
  `aggregate`, `report`, `agent_eval`, `response_eval`).
- `app/` is the asynchronous and I/O side around it: providers and models,
  the agent loop that drives `turn`, tool handlers, the JSON documents and
  the report files, and the two eval runners.
- `tests/` runs the library on concrete conversations, streams and cases.

The turn loop is a sequence of states — `TurnLoop`, `PendingRound`,
`ToolRound`, `ToolCall`, `RoundOver` — each consumed by the step that
leaves it. Whoever drives a run calls the model and the tools and hands back
what they produced; the library decides everything else, and proves what
every finished run satisfies: it completed no more rounds than its limit,
its usage is the sum of its rounds, and the conversation followed by what it
appended keeps every request rule.
