# photoos

The PhotoOS home-server API as a verified library with a thin server around it.

* `src/` — the library, verified with Verus. Each module holds the rules of
  one area of the server with their contracts: update channels, signed
  manifests and the update workflow (`update_*`, `updates`), the API guard
  (`access`), notifications, mobile and PC backups, storage and disks,
  backups, RAID plans and `/proc/mdstat`, logs, setup, users and sessions,
  and the `/proc` readers. Calls into outside crates (URL parsing, SHA-256,
  Argon2, HS256 session tokens, EXIF, image thumbnails, ZIP archives,
  UUIDs, RFC 3339 times, JSON of string lists and of journal lines) go
  through small trusted wrappers whose contracts state or name what the
  crate computes.
* `tests/` — tests of the library's public functions.
* `app/` — the HTTP server (axum), the database (sqlx), processes, files,
  the clock, the signing secret's file and everything that works with
  decimal numbers; it hands plain values to the library and acts on its
  answers.
