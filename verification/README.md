# hachimi

The verified core of the Hachimi game-enhancement mod, written in Verus.

- `src/` is the library. Every function in it is verified against its
  `requires` / `ensures`: plugin registries, caption filtering and caption
  bookkeeping, message-pack response reading and reminder planning, download
  planning and buffering, the localized-data directory list, the settings
  editor's normalisation rules, and the state machines behind the overlay,
  the frame-rate cap, the theme cache and the game-UI toggle. Laws that
  relate several functions are public proof functions named `law_*`.
- `app/` is the host-side glue in plain Rust: process-wide state, the C
  callback side of the plugin API, HTTP downloads, reading the configuration
  file and scheduling reminders through the platform.
- `tests/` runs the library on concrete values.

Verify with Verus from this directory; `cargo test` runs the tests.
