# context_ledger

A verified library for reviewable, reversible edits of an agent's provider-facing context:
range summaries, tool-result distillations and reasoning suppressions are prepared as
drafts, checked, applied as transactions and later reverted or reapplied, while the stored
transcript itself never changes.

The library (`src/`) is written in Verus; each public function states its behaviour in
`requires`/`ensures`, and the laws that span functions are proof functions named `law_*`.

- `evidence/` — auditable file evidence extracted from a range's tool calls.
- `model`, `session`, `protocol`, `text` — the data model and string utilities.
- `curator`, `scope`, `plan`, `plan_preview`, `payload`, `proposals`, `route_options` —
  curator prompts, the isolated source scope of each task, the plan shown to clients, the task
  requests, and the checks on its answers.
- `draft`, `capture`, `reasoning`, `store`, `lifecycle`, `previews`, `estimates` — capture
  validation, the bounded draft store, the draft lifecycle and what a draft's preview shows.
- `clock` — the wall clock, read as milliseconds since the Unix epoch.
- `commit`, `history` — applying drafts, reverting and reapplying transactions and emergency
  applies on a session (each persisted, a failed save restoring the session), validation
  evidence and transaction history.
- `snapshot`, `rows`, `preflight`, `provider` — editor snapshots, message detail, request
  pressure and provider-side projection validation.

`app/` holds what stays outside verification: JSON records and persistence, the JSON side of
curator calls, the JSON size of finished draft statuses, and floating-point cost accounting. `tests/` exercises the library.
