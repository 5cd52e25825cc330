# seedr-dl

A Seedr.cc cloud downloader that files media into a Jellyfin library, with Gemini-assisted
naming and an offline parser as fallback.

## Layout

- `src/` — the verified library (Verus). Every public function carries a contract, and the
  properties that span several functions are stated as public proof functions (`law_*`).
  - `text`, `paths` — character-level string helpers and Unix path joining.
  - `gemini` — release-name parsing (offline parser, Gemini request pieces, manual naming).
  - `organizer` — where an identified release goes in the library.
  - `downloader` — chunk planning and resume bookkeeping (`state`), the eight-way plan
    (`parallel`), retry and flush policy (`chunk`), progress smoothing (`coordinator`),
    single-stream resume (`single`) and rate arithmetic (`rate`).
  - `history`, `history_cli`, `history_ui` — the download history and its commands.
  - `task`, `worker`, `attach` — background download records and their monitor.
  - `seedr` — Seedr.cc request addresses and forms, and how replies are read.
  - `manager`, `modal`, `ui`, `cli`, `config` — dashboard commands, dialogs, screen texts,
    command-line decisions and settings.
- `app/` — the program around the library: argument parsing, HTTP, files, terminal UI.
- `tests/` — tests of the library's public functions.

## Behaviour notes

- Every file placed in the library is recorded in the download history
  (`~/.config/seedr-dl/history.json`) with a fresh `dl_<milliseconds>` identifier.
- With `-y`, no prompt is shown; the cloud item is then deleted after the download only when
  `delete_after_download` is set in `config.json` (it is off by default).
- A chunk is tried once and retried up to three times (after 1, 2 and 4 seconds).
- Cancelling an active cloud torrent is not supported: the client reports it instead of
  sending a request.
