# brawler_core

The background-job core of a market-research desktop application, written in
Verus: the durable job queue, the worker lanes and failure surfaces, the
autopilot report pipeline, the company history backfill, the history and
detection sweeps, the aggregator fundamentals pull, the FX pull planning, the
activity ledger reconciliation, and the job state machines of the AI-backed
features (analysis, claim and KPI extraction, event-date derivation).

- `src/` is the verified library. Every job whose work alternates between
  outside calls (storage, HTTP, AI providers) and decisions is written as a
  state machine: the caller performs a step's outside work and hands its
  outcome back as an event; the library decides the next step, proved against
  its contract. Calls into `serde_json`, `url`, `scraper` and `sha2` stand
  behind small trusted wrappers whose contracts name what they return.
- `tests/` exercises the library on concrete scenarios.
- `app/` holds what the verifier does not take: serde copies of the library's
  types, the floating-point scoring of the interpretative layer, the clock,
  and drivers for the jobs whose outside work is I/O (the backfill, KPI
  extraction, AI analysis, event-date derivation, the history sweep, the FX
  pull and IR resolution), each run against a service trait the host
  application implements. The other entry points (the autopilot stages,
  startup reconciliation, the aggregator pull, claim extraction, insider
  attachments, health facts, content embedding) are called by the host
  application directly with the outcomes of its own outside work.
