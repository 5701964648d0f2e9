# log_whisper

The parsing core of a desktop log viewer, verified with Verus.

- `src/plugins`: the parsers (`springboot`, `docker_json`, `mybatis`, `raw`,
  `auto`), the parser `manager`, the filter `chain`s and their `filters`, the
  predefined chains (`presets`), the `enhanced` manager that tries chains before
  parsers, the unified `formatter`, the renderers (`json_repair`,
  `error_highlighter`) and the trace and duration finder (`analysis`).
- `src/models.rs`: the blocks that renderers produce.
- `src/text.rs`, `src/bytes.rs`: operations on character sequences, with lengths
  and cuts in UTF-8 bytes.
- `src/metadata.rs`: the key/value map attached to each line.
- `src/foreign.rs`: the calls into `regex`, `serde_json`, `encoding_rs`, `chrono`
  and std functions (case mapping, paths, the system clock) that Verus has no
  specification for; their contracts are trusted.
- `src/tauri`, `src/utils`, `src/tail.rs`, `src/session.rs`: requests,
  responses, checks and state of the user interface, encoding detection,
  timestamps, the cursor that follows a growing file and the running tail
  sessions.
- `app/`: a command-line program around the library (file reading and writing,
  decoding, timing, and everything in floating point: confidences, durations,
  sizes, progress and window sizes).
