# authd

Storage for an authentication service, kept in SQLite and proved with Verus.

- `src/type_flyweight/`, `src/drafts/`: the row types of each table.
- `src/rows.rs`: filtering, pagination (SQLite's `LIMIT`/`OFFSET` rules) and
  first-match lookup over rows, with their lemmas.
- `src/window.rs`: the sliding-window request counter shared by the
  rate-limited tables, and its laws.
- one module per table (`sessions`, `ip_addresses`, `action_rate_limits`,
  `account_requests`, `api_keys`, `contacts`, `totp`, `organizations`,
  `people`, `number_settings`): each operation is a pure function over the
  rows of the table with an exact contract (`*_in`), and a function that loads
  the rows, applies it and hands the result to SQLite: the statements and
  their parameters come from verified functions with exact contracts
  (`Stored::select_all`, `Stored::delete_by_key`, `Stored::definition`,
  `increment_statement`, `Stored::encode`, `store::keys`), and the row count
  SQLite answers becomes the result through `store::written` and
  `store::inserted`.
- `src/sqlite.rs`: the calls into `rusqlite` that run statements, with the
  contracts that are trusted (`src/errors.rs` also turns a `rusqlite` error
  into text through its `ToString`); `src/store.rs` reads and writes whole
  rows through them, deletes rows by their keys, and wraps each operation
  that reads and then writes in a savepoint.
- `app/`: the command line.
