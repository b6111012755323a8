# local_api_relay

A relay that listens on loopback only. It publishes models to its clients and
passes their calls on to upstream providers, the cheapest available route
first, with fallback, quarantine and recovery. It keeps its configuration, call
records and backups in a local SQLite database.

## Layout

- `src/` is the library: the rules of the relay, with contracts that Verus
  proves.
  - `text`, `numbers`, `decimal`, `order`, `find`, `timeutil`, `json`: plain
    data.
  - `validate`, `store`, `keys`, `health`, `recovery`, `routing`,
    `operations`: the configuration and the health of model routes. `Store` is
    the configuration as it stands in the database; its invariant is
    `Store::wf`.
  - `protocol`, `sse`, `stream`, `recorder`, `relay`, `probe`, `catalog`,
    `errors`, `wire`: requests, streams, calls and probes. `RelayCall` and
    `SseRelay` are state machines that are driven from outside.
  - `usage`, `daily`: the accounting of usage and its gaps.
  - `schema`, `backup`, `restore`, `storage`: the care of the database.
  - `session`, `admin`, `pages`: the administrator's side.
  - `cli`, `paths`, `log`, `faults`, `shell`: the surroundings of the process.
- `tests/` run the library with the outside crates linked.
- `app/` is the program around it: the listener, the upstream client, SQLite,
  files, schedulers and the command line. Three rules stand there and are not
  proved: costs, which are computed in floating point; the SQL that cuts
  records down to a window of time or to a page; and the reading of the backup
  directory, which passes over files that cannot be read as a backup.
  `app/desktop.rs` is the root of the tray application, a program of its own.

## What is trusted

Contracts that are believed without proof belong to calls of outside code:
parsing and writing JSON (`json`), parsing URLs (`validate`), checking UTF-8
(`sse`), the system clock (`timeutil`), random numbers (`backup`) and
`String::push` (`text`). Each stands next to a doc comment that says what is
claimed.

Public proof functions named `law_*` state what holds of the library as a
whole.
