# beehive

Beehive organises coding work by GitHub repository (a *hive*) and isolated
clones of it (*combs*, optionally grouped in *nests*), with a terminal per
comb. This crate is its logic, verified with Verus, and a terminal UI
around it.

## Layout

- `src/` — the verified library. Every function carries a contract and is
  proved; calls into std and vt100 that Verus cannot read go through small
  trusted wrappers whose contracts say what the documentation promises.
  - `keys`, `terminal`, `queries`, `osc52`, `keyboard`, `screen`: what an
    embedded terminal needs — key and mouse encoding, the answers to terminal
    queries (also when split across reads), mode tracking, clipboard
    requests, URLs under a click.
  - `tui`, `sidebar`, `state`, `keymap`, `dispatch`, `handlers`, `pickers`,
    `finder`, `events`, `background`, `chrome`: the UI state and what every
    key, event and finished background job does to it.
  - `settings`, `desktop`, `operations`, `repo`, `model`: hives and combs on
    disk — names, repository references, ordering, nests, pane layouts, the
    steps of a clone and of a delete.
  - `fuzzy`, `rank`, `text`, `update`, `commands`, `shell`: matching and
    ranking, text helpers, version checks, the command line.
- `app/` — the program: reading and writing the beehive's files, running
  git and gh, the pseudo-terminals, drawing with ratatui, and the event loop.
  What a key, an event or a finished job does is decided by the library;
  the program keeps the loop's own timing (a background refresh every few
  seconds) and reads the environment switches.
- `tests/` — tests of the library on concrete values.

The laws of the library (what holds across calls) are public proof
functions, named `lemma_*`, next to the functions they speak of.
