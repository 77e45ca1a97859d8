# warpbench

A multi-step HTTP load tester. Virtual users replay YAML-described
scenarios against an API; every request is timed and counted, and a final
report gives min / avg / p50 / p95 / p99 / max latencies.

Layout:

- `src/` — the verified library (Verus):
  - `config.rs` — the scenario document (borrowed from its buffer) and its check;
  - `engine.rs` — round-robin scenario assignment, owned step copies, the
    worker's next action, method choice, header parsing, request planning,
    status classification and outcome counting;
  - `metrics.rs` — measurements, wrapping counters and the latency report;
  - `sort.rs` — merge sort of latency samples;
  - `text.rs` — Unicode whitespace, trimming and char/string conversion;
  - `error.rs`, `cli.rs` — step errors and run settings.
- `app/` — the program around it: clap arguments, serde YAML loading,
  tokio tasks and channels, reqwest requests, logging and printing.
- `tests/` — tests of the library's public functions.
