# data-cleaner

The logic of a Linux disk-cleanup tool, written in Verus and proved against
its contracts: which cleanup rules apply and where they point, how a scan
decides what may be deleted, the safety audit every path passes before it is
touched, the step-by-step cleanup run, kernel clean-up plans, the storage
analyzer and its trash selection, settings and schedules, translations, and
the texts the interface shows.

## Layout

- `src/` — the verified library. Each module states its model in spec
  functions and proves its executable functions against it. Laws that span
  several functions are public proof functions (`lemma_…`), for example in
  `kernel_laws.rs`, `analyzer_laws.rs`, `security.rs`, `cleaner.rs`,
  `selection.rs` and `settings.rs`.
  `src/outside.rs` holds the only trusted items: thin wrappers around
  `dirs`, `bytesize`, `uuid`, `serde_json`, `chrono` and one std function,
  each with the contract its documentation supports.
- `tests/` — ordinary Rust tests that run the library with the real outside
  crates linked.
- `app/` — a small command-line program around the library: it reads the
  file system, `/proc` and the environment, runs external commands, stores
  the configuration as JSON, and hands plain values to the library.

## Checking

Verification runs Verus on `src/lib.rs`; the tests and the program build
with Cargo against the same library.
