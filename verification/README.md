# codex-plus-core: encrypted configuration sync, verified

Devices of one account keep four files in step through a small sync
service: the manager's `settings.json` (without its device-only settings),
Codex's `config.toml` and `auth.json`, and the model catalog. Every file is
sealed on the device with AES-256-GCM under a key derived from the sync
token (the recovery key) entered on each device, which is never sent to the
service and must differ from the device's login token; the service only
stores, orders and hands out sealed files.

## Layout

- `src/` is the library, proved with Verus:
  - `crypto`, `json`, `text`, `files`, `contents`: digests, sealing, the JSON
    model and the four file slots;
  - `projection`: what of each file is synchronized and how received
    settings keep the device's own settings;
  - `snapshot`: sealing a file set and opening a server snapshot, with every
    path, digest and slot checked;
  - `engine`, `run`, `apply`: the client's decisions — the plan of a sync
    run, the run itself as a sequence of steps, writing received files
    with backups and roll-back, and the background loop's step;
  - `merge`: three-way merge of JSON documents with field conflicts;
  - `server`: the service's rules — accepted uploads, idempotent commits,
    the snapshot folded from the change log, acknowledgements;
  - `live_config`: the read-only summary of Codex's live `config.toml`.
- `app/` does the I/O around it: HTTP requests, files on disk, the
  background loop, the manager's commands and the service's HTTP, WebSocket
  and SQLite front.
- `tests/` runs the library on concrete values.
