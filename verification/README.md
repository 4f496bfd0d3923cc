# dispatch — verified core

The logic of dispatch's chyron (scrolling news ticker) mode and of its
command-line maintenance actions, proved with Verus.

- `src/ticker.rs` — ticker state: queue, history of scrolled-off headlines,
  speed, pause and headline stepping.
- `src/render.rs` — the ticker line as styled characters and the cells
  visible in a screen area.
- `src/chyron.rs` — chyron mode state.
- `src/cli.rs` — command-line arguments, which one-shot action runs, and the
  progress messages.
- `src/feeds.rs`, `src/order.rs` — listing order of feeds and categories
  (a stable sort by sort indices).
- `src/sync.rs` — the lines printed by `--sync` and `--stats`.
- `src/text.rs` — character helpers: one-pass template filling, character counts and decimal numbers.
- `app/` — the program around it: argument parsing with clap, news-flash
  calls, file I/O, printing, drawing into a ratatui buffer, and the
  floating-point scroll clock.
