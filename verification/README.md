# chronon-valence-identity

A context factory for Chronon script handlers: for each dispatch it builds a value from the
run's actor JSON, stages it under a fresh invoke id, and hands the handler a context labelled
`invoke:<id>|<actor>`; the handler recovers the value, once, from that label.

- `src/label.rs` — the label format, its parser (`parse_invoke_id`) and builder
  (`invoke_label`), and the proof that a built label names its id.
- `src/stage.rs` — `InvokeStage`, the values staged by invoke id, `valence_from_context`, and
  the laws of staging and recovery.
- `src/context.rs` — `ValenceScriptContextFactory` and `ValenceScriptContext`; the calls into
  `serde_json`.
- `src/error.rs` — `InvokeError`.
- `app/lib.rs` — the process-wide stage, the calls into `valence`, and the impls of
  `chronon_core`'s `ContextFactory` and `ScriptContext`.
