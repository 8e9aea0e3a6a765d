# tl_storage

The storage layer of a guardrail runtime for AI agents: it records decisions,
runs, evaluations, financial actions, LLM usage, reviews and integrations.
This crate holds the part of that layer that decides things (validation,
stored encodings, budget admission, ledger arithmetic, snapshots and their
data minimisation, leases, analytics), written in Verus and proved against
its contracts. Database access is not part of it.

## Layout

- `src/` is the verified library. Each module states its behaviour in
  `requires` / `ensures` clauses over spec functions, and the properties that
  relate several operations as public `law_*` proof functions.
  - `error`, `ids`, `text`, `json`, `crypto`, `calendar`: the error type,
    UUID ids, text helpers and the lexicographic order, JSON values with
    object member lookup, SHA-256 / BLAKE3 digests rendered as hex, and
    instants: read from RFC 3339 text, their UTC date, day and month.
  - `financial`, `llm`, `pay`, `budget_alert`: financial actions and their
    ledger, budget windows and agentic payment sessions; LLM spend
    admission and usage buckets; pay-decision caps; budget alert updates.
  - `evaluation`, `snapshot`: evaluation profiles and assignments, the
    capture barrier, frozen manifests, job claims and leases; run snapshots,
    their counts, triggered-policy evidence and data minimisation.
  - `review`, `review_analytics`, `analytics`, `tally`, `order`: human review
    events and analytics, decision analytics, counting and grouping by key,
    and a verified sort.
  - `authorization`, `mcp`, `gateway`, `github`, `notification`,
    `escalation`, `environment`, `policy`, `knowledge`, `otel`, `bench`,
    `feature_flag`, `api_key`, `memory`: the rules of the other stores.
- `tests/` exercises the library on concrete values.
- `app/` is ordinary Rust around the library: the asynchronous decision
  store, conversions between `serde_json` documents and the library's JSON
  values, clock, timestamp parsing and id helpers, content hashes of serialized documents, and
  the floating-point rates of analytics.

## Outside crates

`sha2`, `blake3`, `base64`, `rand`, `uuid` and `chrono` are called from the
library through small wrappers whose contracts state or name what they
compute. `serde`, `serde_json`, `chrono`, `tokio` and `async-trait` are used
by `app/`.
