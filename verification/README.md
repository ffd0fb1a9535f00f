# cm

A context-mixing bit predictor for a compressor, and the cost meters used
to rank it, verified with Verus.

- `src/model.rs`, `src/context.rs`: the predictor's state and construction,
  and the per-byte context hashes.
- `src/predict.rs`, `src/inputs.rs`, `src/select.rs`, `src/mixing.rs`,
  `src/step.rs`: predicting a bit (context slots, match models, run maps,
  two mixer layers, APM calibration).
- `src/learn.rs`, `src/follow.rs`, `src/history.rs`, `src/matching.rs`,
  `src/byte_end.rs`: learning a bit and advancing the history at a byte end.
- `src/hashing.rs`, `src/bit_history.rs`, `src/adaptive.rs`, `src/apm.rs`,
  `src/mixer.rs`, `src/tables.rs`: the building blocks.
- `src/cache.rs`, `src/instrument.rs`, `src/fuel.rs`, `src/report.rs`: the
  memory-cost cache model, the access instrumentation plan, the fuel
  arithmetic and the heap-peak report reader.
- `src/meter.rs`: the fuel and memory-cost runs of a wasm module, calling
  wasmtime through trusted wrappers; each store, its instance and its
  exports are held together so that no call can mix parts of two runs.
- `src/laws.rs`: properties of the building blocks stated and proved as
  lemmas.
- `src/replay.rs`: prediction, learning and construction are functions of
  the state, so a decoder that repeats the encoder's calls stays in
  lockstep with it.
- `app/`: the meter program (arguments, files, the heap-peak subprocess,
  and the walrus rewrite of a module's memory accesses).
