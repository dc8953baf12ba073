# mosaic

The engine of Mosaic, a desktop automation hub: it runs scripts and resident
plugins on schedules, file events or demand, turns their output into dashboard
cards and timelines, pushes summaries to PoPo devices and QQ robots, installs
community packages and keeps itself up to date.

## Layout

- `src/` — the verified library (Verus). The decisions of the engine live
  here with its contract: the data model, trigger scheduling, output parsing
  and result merging, the run loop's state machine, notification and
  execution logs, the QQ gateway protocol, community registry checks,
  reading and checking package archives (their ZIP entries), release selection and download checks, the database migrations,
  project inspection and the static capability scanner. Laws that relate
  several operations are public proof functions (`lemma_*`).
  Calls into `url`, `regex`, `sha2`, `zip` and `serde_json` go through small
  trusted wrappers whose contracts are stated next to them (`urls`,
  `scanner`, `digest`, `paths`, `text`, `community`, `runner`).
- `tests/` — tests of the library on concrete values.
- `app/` — the process around the library: db.json on disk, the OS
  credential vault, child processes, file watchers, HTTP and WebSocket
  connections, writing the checked archive entries to disk and the start-up
  sequence. It hands the library plain values and acts on what the library
  decides.
