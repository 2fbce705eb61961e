# perceptkit

Declarative, auditable scene decisions for AI agents: typed features go in,
YAML-defined scenes are matched by rules, an arbiter picks one, a confidence
gate accepts, rejects or escalates it to a reflector, and a hysteresis state
machine keeps the reported scene from flapping.

## Layout

- `src/` — the library, verified with Verus: feature keys and bundles, the
  registry with "did you mean" suggestions, the rule matcher, arbiter and
  confidence gate, the engine and its lint, the scene loader's admission and
  ordering rules, the transition state machine, reflector logic (reply
  parsing, prompts, the mock and no-op reflectors), the pending-queue records,
  trace-file line handling, the audio feature schema and speaker-count
  decision, and the evaluation tally.
- `tests/` — tests of the library.
- `app/` — the command-line tool and the parts that do I/O or floating-point
  work: YAML and JSON files, the SQLite queue, audio signal processing, the
  asynchronous reflector loop, the local model and the Python bindings.

## Numbers

The library holds every real-valued quantity in fixed point: `1.0` is
`1_000_000` (`text::SCALE`). Confidences, thresholds and feature readings are
`i64` in that scale; times are microseconds since the Unix epoch. The
runtime converts at its edges.
