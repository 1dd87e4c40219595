# oxide-versioned-envelope

Versioned envelopes for JSON data structures: a document is stored as
`{"version": N, "data": ...}`, and a reader reads the data with the parser of
the version it names and upgrades it, step by step, to the newest version of
a version set.

The library in `src/` is written in Verus. Its contracts state what each
reader returns for every document, in terms of the version set's own
`parse`, `version` and `step` (the spec functions of `VersionSet`), and its
laws state what holds across functions: that a written envelope reads back
at its version, that a damaged envelope is never handed to a fallback, that
a rewrite is needed exactly when a value did not come from an envelope of the
newest version.

- `src/json.rs`: the calls into serde_json, each a trusted wrapper.
- `src/scan.rs`, `src/envelope.rs`: scanning a document's top level and
  checking its envelope.
- `src/upgrade.rs`, `src/read.rs`: the upgrade loop and the readers.
- `src/write.rs`: writing envelopes.
- `src/errors.rs`, `src/messages.rs`: errors and their messages.
- `tests/`: the tests, run against the compiled library.
- `app/`: what Verus does not take: serde and schemars impls, `Display` and
  `Error` for the errors, the `version_set!` macro, and readers that panic
  where a version set breaks its contract.
