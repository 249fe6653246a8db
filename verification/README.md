# cadence_core

The verified engine of Cadence, a music library application for Linux.
Every executable function in `src/` carries a `requires`/`ensures` contract
that Verus proves; the laws the library keeps are stated as public proof
functions next to the code they speak of.

## Layout

- `src/` — the library, verified by Verus.
  - `text` — decimal rendering, white space, case, splitting and joining.
  - `models` — tracks, albums, artists, playlists, audio formats.
  - `paths` — path operations and the XDG locations of data and caches.
  - `metadata` — missing-tag detection, compilation flags, edit forms.
  - `organization` — path templates, sanitised components, plans, their
    step-by-step execution and undo (`safety` holds the laws about
    sanitised components and rendered paths).
  - `artwork` — SHA-256 cache keys and cache file names.
  - `lookup` — MusicBrainz / Cover Art Archive / Wikidata queries, URLs and
    the reading of their answers; number parsing.
  - `db` — the search query, sort orders, rescan decisions, naming of
    scanned files and the schema migration steps of the library database.
  - `queue` — the play queue with shuffle and repeat, and media-key policy.
  - `service` — policies of the library worker: preview metadata, library
    roots, lookup terms, accounting of a lookup pass.
  - `search` — the library-wide search sections and the newest albums.
  - `watch` — translation of file-system notifications and their debounce.
  - `display` — texts shown by the user interface.
- `tests/` — tests run against the compiled library.
- `app/` — a command-line front end: the SQLite database, folder scanning
  and tag reading/writing, network lookups, file moves and file watching.

## Checking

Verus verifies `src/`; the tests and `app/` are ordinary Rust.
