# gitpulse

GitHub profile analytics with a Developer Health Score, as a library whose
behaviour is stated in Verus contracts and proved, and a terminal program
around it.

- `src/` — the verified library
  - `api/` — the profile data (`types.rs`) and the decisions taken while
    fetching it (`client.rs`): the `Link` header, paging, which repositories
    are enriched and in which batches, totals, and the daily event tally.
  - `score/` — the score card of a repository and the profile score:
    `rules.rs` states them as spec functions, `mod.rs` computes them, and
    `laws.rs` proves what holds of them for all inputs.
  - `ui/` — the dashboard's decisions: colours, heatmap cells and month
    labels, panel figures, and how keys change the dashboard's state.
  - `clock.rs` — the calls into chrono (the current time, parsing a date).
  - `order.rs`, `text.rs` — a stable sort by rank and string helpers.
- `tests/` — tests on concrete values.
- `app/` — the `gitpulse` command: HTTP requests, JSON, the terminal loop,
  drawing, files.
