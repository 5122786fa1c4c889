# vexa_vm

The decisions of a virtual machine host, proved with Verus, and the ordinary program
around them.

- `src/` is the library. It touches no file and no socket: what the world says comes in as
  plain values, and what is to be done goes out as plain values. Only `ids` reads the clock
  and draws random identifiers; every operation takes the time and the identifier that it
  needs as arguments. Each public function states in its contract what it returns.
  - Releases: `semver`, `digest`, `archive`, `extraction`, `policy`.
  - Updates: `request`, `plan`, `packages`, `package_run`, `activation`, `rollback`,
    `recovery`, `health`, `journal`, `status`, `report`. The longer ones are machines: each
    step takes the answer to the last action and gives the next action.
  - The host: `host`, `host_tables`, `host_report`, `config`, `net`.
  - Records: `db` holds the tables and every operation on them. `table` holds what all the
    tables share. `db::keys` proves that no operation makes two rows with one key, and
    `db::rotation` what becomes of a channel key that is staged.
  - Shared: `text`, `paths`, `numbers`, `ids`, `json`, `error`.
- `tests/` runs the library with the crates it calls.
- `app/` reads and writes files, runs commands, speaks HTTP and keeps the records in SQLite.

The functions that call another crate are private and marked `external_body`. The comment
above each says what is taken on trust.
