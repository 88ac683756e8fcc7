# windsurf_account_manager

The verified core of a desktop manager for Windsurf accounts, written in Verus.

- `src/` is the library, checked by Verus: the account store and its invariant
  (no two accounts share an identifier), groups, tags, settings and the capped
  operation log; the stable sort of the account list by nine fields; batch tag
  edits, manual ordering and import; the choice of backups to list and prune;
  save coalescing; and the decisions of the Devin sign-in, import, refresh and
  conversion flows. `src/laws.rs` states and proves properties that span several
  operations.
- `tests/` runs the library on concrete values.
- `app/` is ordinary Rust around the library: JSON persistence, backups on disk,
  the local HTTP API and the network calls of the sign-in flows, which hand their
  results to the library.

Calls into `uuid`, `chrono` and `str::to_lowercase` stand behind small trusted
wrappers in `src/ids.rs`, `src/time.rs` and `src/text.rs`, each with a doc comment
saying what its contract claims of the outside function.
