# protest

Property-based testing: generators of random inputs, shrinking of failing inputs to
small counterexamples, configuration, and failure reports.

The library under `src/` is written in Verus and verified:

- `generator`, `primitives`: generators with contracts on what they generate and on the
  exact list of shrink candidates they give; `primitives::collections` holds the set and
  map generators, over element and key types whose order, hashing and cloning agree with
  equality (`CollectionKey`).
- `shrink`: shrinkable values, shrinking strategies, and the shrinking engine, whose
  result is a chain of failing candidates that ends on a locally minimal value when the
  run completes; `shrink::stepped` is the same loop driven by reported outcomes, and
  `shrink::collections` the shrinking of sets and maps.
- `execution`: running a property test (a failure is a generated input, shrunk greedily
  to a locally minimal failing value unless the step limit or the timeout stops it), a
  builder, and `execution::stepped`, the run driven step by step.
- `config`, `error`, `coverage`, `performance`, `persistence`, `rng`, `time`, `text`:
  configuration with validation, reports whose texts are specified exactly, coverage
  tracking, splitting of runs over threads, saved failure records, and randomness.

`app/` holds what runs around the library: the thread's global configuration, printing,
threads, asynchronous properties, files on disk, floating point and statistics.
