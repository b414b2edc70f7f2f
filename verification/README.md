# PikaChat

The logic of a Matrix chat client, with proofs.

- `src/backend_core`: commands and events, errors, the lifecycle, retry delays, timelines.
- `src/backend_platform.rs`: storage of secrets.
- `src/backend_matrix`: identifiers, room events, sync, login, persistence, the runtime and the
  frontend adapter.
- `src/desktop`: state, configuration and backend bridge of the desktop client, login form and
  profile, media cache and GIF playback.
- `src/smoke`: what the backend smoke harness does, and what it takes for an answer.
- `src/text.rs`, `src/text_map.rs`, `src/paths.rs`: text, maps keyed by text, file paths.
- `tests`: tests of the compiled library.
- `app`: the program around the library: the Matrix SDK, files, the keyring, the terminal.

The functions of the library carry contracts that say what they return or change. The in-memory
secret store is the exception: its table is shared behind a lock, and what a call finds there
depends on the other holders. What the library takes from other crates (JSON, identifiers,
sessions, content types, GIF decoding, UUIDs) stands behind small functions whose comments say
what is believed of them.
