# zkfp

A verified library for the ZKTeco ZK9500 fingerprint scanner stack: image
enhancement and format conversion, ISO templates, the matching decisions
around the Bozorth3 scorer, the USB capture protocol, and an offline SQLite
store with a PostgreSQL sync schedule.

## Layout

- `src/` — the library, verified with Verus. Each public function states
  what it returns over mathematical models (`Seq`, `Map`, integers), and the
  laws of the library stand as public proof functions named `law_*`.
  - `image` — gray images, enhancement steps, background and finger
    detection, BMP/PNG/Base64 through the `image` and `base64` crates.
  - `template` — templates, finger positions, merging.
  - `matching` — the pre-filter, candidate ranking and re-ranking, best
    match and identification outcomes, the in-memory gallery.
  - `usb` — device constants, frame assembly and the capture state machine,
    control writes of the hardware configuration.
  - `schema`, `value`, `query`, `store` — table schemas and their DDL, column
    values, query and write statements.
  - `sync` — sync mappings, write plans and the schedule arithmetic (cron
    through the `cron` crate).
  - `capi` — the readers of codes, flags and lists of the C interface.
  - `diagnostic` — the scanner check tool's BMP dump, ASCII preview,
    buffer statistics and read loop.
  - `text`, `db_error`, `nbis` — shared text helpers, errors and records.
- `tests/` — tests of the library on concrete values.
- `app/` — the parts that do I/O: SQLite and PostgreSQL, image files and the
  WSQ codec, the USB device and its check tool, process-level parallel
  search and the C interface.
