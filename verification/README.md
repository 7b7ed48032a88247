# g3

The plan mode of a coding agent, and the provider that the agent talks to.

- `src/plan` holds plans: the rules that a plan keeps (`schema`), the evidence
  for its items (`evidence`, `verification`, `report`), the file that keeps it
  (`storage`), the plan tools (`tools`) and the approval of file changes
  (`gate`).
- `src/anthropic` holds the Messages API: the types on the wire (`wire`), how a
  conversation becomes a request (`convert`, `provider`) and how a stream of
  events is read (`stream`).
- `src/chat.rs`, `src/json.rs` and `src/text.rs` hold what both share.
- `app` adds files, processes, HTTP and the serde derives.

The library is verified with Verus. Each public function states what it returns
for every input that it takes. Most take every input. The rest have a `requires`,
which asks for positions inside a text or a list, for what was looked up on disk
to answer what was asked, or for a count to fit its integer. The `law_` functions
state what holds across functions.
