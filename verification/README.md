# zenmoney

The core of a client for the ZenMoney personal-finance service, written in
Verus: every function in `src/` carries a contract that Verus proves.

## Layout

- `src/models.rs`: the entity records (transactions, accounts, tags, ...).
  Amounts are binary64 bit patterns (`src/binary64.rs`), days are `Date`s
  (`src/date.rs`), timestamps are seconds since the epoch.
- `src/keyed.rs`: records identified by a key; merging a batch by key and
  removing by key.
- `src/storage.rs`: the in-memory store, one record per key in each collection.
- `src/filter.rs`, `src/queries.rs`: transaction filters and lookups.
- `src/deletions.rs`, `src/sync.rs`: grouping the deletion records of a sync
  response, and applying a response to the store.
- `src/cli.rs`, `src/report.rs`: the decisions of the terminal front end
  (resolving names, building a filter, the rows of its tables).
- `src/laws.rs`: properties that span several operations.
- `src/text.rs`, `src/numeric.rs`: text comparison and decimal parsing.
- `app/`: what stays outside verification: a store shared between threads
  behind a mutex, the JSON forms of the records, clap arguments and table
  output.
- `tests/`: tests of the library.

Calls into `chrono` and into `std` functions without a vstd specification go
through small trusted wrappers; each names the call and says what its contract
claims.
