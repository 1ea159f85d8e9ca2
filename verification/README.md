# codex_core

Verified core of Codex's configuration loading and user notifications.

- `src/config.rs` — configuration values (TOML tables as maps) and the overlay merge, with
  its laws: the overlay's values win, the base survives where the overlay is silent,
  merging is idempotent and empty tables are neutral.
- `src/loader.rs` — how the layers stack (user, repository, managed config, managed
  preferences) and where the files are looked for (paths follow POSIX rules).
- `src/json.rs` — compact JSON text; strings are written by `serde_json`.
- `src/notification.rs`, `src/hooks.rs` — the notification payloads and the command
  lines that carry them to the user's notify program.
- `src/document.rs` — a configuration file's TOML text, parsed by the `toml` crate, as a
  configuration value; a missing file is no layer.
- `app/` — file reading, metadata lookups, process spawning and async plumbing.
