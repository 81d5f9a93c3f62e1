# caster_bridge

The logic of a casting bridge for Orion Drift esports overlays, verified with
Verus. The bridge polls the game's spectator API, serves the game state to
browser overlays over a WebSocket, serves team logos over HTTP, and gives the
caster a panel to edit team names, logos, match data and round scores.

Layout:

- `src/` — the verified library.
  - `round_map.rs`: ordered maps of rounds (`indexmap::IndexMap`), their model
    as a sequence of pairs, and the list form that overlays exchange.
  - `rounds.rs`: `RoundManager` — archived rounds, saved rounds, the caster's
    corrections, and who has won; with the laws that tie them together.
  - `session.rs`: decisions taken while running — poll interval, spectator
    connection, subscriptions, overlay count and queries, the status line,
    round edits.
  - `odc.rs`, `modal.rs`: fetching match data from the league site, and its
    dialog.
  - `logos.rs`, `endpoints.rs`, `text.rs`: addresses, file names, content
    types, decimal numerals.
  - `state.rs`, `overlay.rs`, `appdata.rs`, `widgets.rs`: plain data types.
- `tests/` — tests of the library.
- `app/` — the program around it: threads, HTTP and WebSocket I/O, the egui
  panel, and the serde forms of the data.
