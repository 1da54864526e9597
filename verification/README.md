# say2

A terminal app for drilling everyday English sentences: browse a library of
phrases, hear them read aloud by the macOS `say` command, and run an auto-play
mode that speaks random sentences (starred ones more often) with a pause in
between.

## Layout

- `src/` — the verified library (Verus).
  - `text.rs`: character-level text handling — whitespace and trimming, tag
    parsing, substring search, TOML string escaping, decimal numbers.
  - `sentence.rs`: sentences, settings, the block appended to the sentence
    file, and the practice statistics (streaks, per-day history, the
    recent-days window).
  - `clock.rs`: today's day number from the system clock.
  - `playlist.rs`: the weighted auto-play pool and its shuffle.
  - `app.rs`: the app's state machine — filtering, selection, add/edit/delete,
    settings, speaking, auto-play, key handling — with every transition
    stated over `AppView`. Steps hand back an `Effect` for the program to
    perform.
  - `ui.rs`: popup centring, footer fitting, tag colour slots.
- `app/` — the program: terminal set-up and drawing, the event loop, file
  reading and writing (TOML via serde), and the `say` process.
- `tests/` — tests of the library.
