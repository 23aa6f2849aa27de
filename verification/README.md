# Oxban

The verified core of Oxban, a local-first Kanban board: boards hold
ordered columns, columns hold ordered cards, and everything is stored in
SQLite.

## Layout

- `src/` — the library, verified with Verus.
  - `positions.rs` — integer positions: appending after the last item,
    placing between neighbours, renormalizing a dense list.
  - `reposition.rs` — the decisions taken while a column or card is moved:
    read the neighbours, renormalize once if they are too close, write the
    new position; with laws on termination and placement.
  - `ordering.rs` — stable ordering by position, stated as "sorted, and the
    items at each position keep their order", with its uniqueness.
  - `store.rs` — how stored rows become the model, how card edits are
    stored, the columns of a new board, and the SQLite pragmas.
  - `ui.rs` — the board page's logic: sorted columns, the cards of a column,
    search, the active board, the page state and the requests its controls send.
  - `config.rs` — the configuration sections and their defaults.
  - `model.rs` — boards, columns, cards and command arguments, with their
    abstract views.
  - `text.rs` — trimming, substring search, ASCII case folding, splitting,
    joining and integer parsing over `char` sequences.
  - `desktop.rs` — web view settings under Wayland.
  - `external.rs` — the trusted calls into `uuid`, `chrono`, `serde_json`
    and `std`.
- `tests/` — tests of the library on concrete values.
- `app/` — the program around the library: configuration file, logging,
  the SQLite queries and the commands.
