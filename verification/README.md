# model_surgery

The verified core of a desktop workbench that opens GGUF models, plans
per-tensor quantization recipes, serves the open model over a local
OpenAI-style HTTP API, and runs official benchmarks (GPQA Diamond,
HumanEval, MMMU-Pro, Terminal-Bench) against it.

## Layout

- `src/` — the library, verified with Verus. Every public function states
  its result in `ensures` over spec functions and views.
  - `gguf/` — the GGUF header reader (on a byte prefix of the file) and the
    model types.
  - `quant/` — quantization types, recipes, bulk assignment and the
    per-tensor preflight.
  - `model.rs` — the open model and the recipe it starts.
  - `api.rs` — request framing and parsing, routing, message checks, stop
    strings, progress lines and the server's start/stop lifecycle.
  - `chat.rs`, `trace.rs`, `runtime.rs` — stored conversations, trace
    files and generation results.
  - `official.rs`, `harness.rs`, `eval_backend.rs` — readiness of the
    benchmark harnesses, their datasets and run settings, command lines,
    setup plans, and how a finished run is judged.
  - `standard_eval.rs`, `progress.rs`, `hardware.rs`, `text.rs` — the
    standard evaluation subset, progress events, sensor ranking, and the
    character-level string helpers the rest is built on.
- `app/` — ordinary Rust around the library: file and process I/O, the TCP
  server, JSON, sensors, and the few computations on floating-point values.
- `tests/` — tests run against the compiled library.
