# appdatahub

Multi-account switching for desktop applications. Each supported
application is described by a plugin (JSON): its data directories, where it
keeps its machine id, the traces of a login, and the flows that switch
accounts or clear the login state.

- `src/` — the verified library (Verus):
  - `text` — string helpers with exact specifications (replacement,
    prefix trimming, decimal rendering).
  - `crypto` — SHA-256 + XOR + Base64 obfuscation; decrypting what
    `encrypt` returned gives the plaintext back.
  - `plugin` — plugin descriptions, environment expansion, the built-in
    plugin, the plugin manager and its executable overrides.
  - `config` — data directories: resolution, the skip list, backup and
    restore plans.
  - `flow` — the flow engine's decisions: step labels, the run state
    machine, process matching, machine-id locations, telemetry ids.
  - `account`, `store` — accounts and the account store (add, rename,
    delete, snapshot, switch with one active account per plugin).
  - `commands` — values handed back by user-interface commands.
- `app/` — the command-line program around the library: files, registry,
  processes, JSON.
- `tests/` — tests of the library.

Randomness and time. Account ids are version 4 UUIDs built by `uuid`'s
`Builder::from_random_bytes` from 16 bytes that `getrandom::fill` draws
(the same `getrandom` that `uuid` itself uses): `Uuid::new_v4` panics when
the system's random source fails, while `getrandom::fill` reports the
failure, which the library turns into an error. The current time is read
from `std::time::SystemTime` and converted by `timestamp_from_unix`:
`chrono`'s `Utc::now` panics when the clock is before 1970, where the
library returns an error instead. The program converts the library's
`Timestamp` to `chrono` dates when it stores them.
