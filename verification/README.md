# Workspace runtime core

The platform-independent core of the Workspace overlay runtime, written in
Verus. Every function under `src/` carries a contract; Verus proves all of
them except three small wrappers around std whose contracts are trusted as
std documents them: `to_lowercase` (over `str::to_lowercase`, in `fuzzy.rs`)
and `push_char` / `pop_char` (over `String::push` / `String::pop`, in
`text_buf.rs`). The Unicode lower-case mapping is named, not written out:
`lowercase` in `fuzzy.rs` stands for what `str::to_lowercase` returns.

`src/` (the library `workspace`):

- `audio/` — stream configuration, device descriptors, the SPSC sample ring
  buffer (samples as `f32` bit patterns), the playback and capture callback
  logic, and the choice of a device stream configuration.
- `events.rs`, `host_event.rs` — input and host events, key codes and the
  mapping from typed text to key codes.
- `platform/` — the in-memory mock backend and the decisions of the winit
  event loops (what each window event becomes, when the loop stops).
- `window.rs` — window configuration and handle.
- `fuzzy.rs` — edit distance, match classification, exact relevance scores and
  stable ranking.
- `security.rs` — capability rights and their containment laws.
- `storage.rs` — schema version bookkeeping of the storage engine.
- `logging.rs` — where log files go on each system.
- `app_state.rs`, `input.rs` — the drawing demo's state, command line and key
  handling.
- `text_atlas.rs` — glyph atlas layout and bitmap copy.
- `text_buf.rs` — the trusted `String` wrappers above.

`app/` is the host shim program around the library: winit event loops, cpal
audio streams, SQLite storage (rusqlite), fontdue rasterization and tracing
setup, plus the floating-point parts (scores, cursor sizes).

`tests/` exercise the library on concrete values.
