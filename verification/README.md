# cargo-tui

A gitui-style terminal front end for Cargo: build, run and test a project,
and manage its dependencies, from a keyboard-driven terminal interface.

The decisions of the program live in a library whose behaviour is stated in
`requires` / `ensures` contracts and proved with Verus: the state machine, key
bindings and the configuration file (its TOML parse behind a trusted call of
`toml`, and its fallbacks), the dependency list, the runnable
targets (including the JSON parse of `cargo metadata` output, behind a trusted
call of `serde_json`), the decision taken at each step of the walk up to the
project root (given whether the directory holds a manifest and its parent), and what
is drawn. The program around it reads files, asks the file system whether a
directory holds a manifest and finds its parent, talks to crates.io, runs cargo and draws the screen.

## Layout

- `src/` — the verified library
  - `app.rs` — command lists, events, actions, and the application state
    machine (`App::handle`), with its transition specification and laws
  - `config.rs` — key codes, binding strings and their parsing, matching of
    key presses, the configurable key map and its defaults
  - `workspace.rs` — the dependency list read from a manifest (grouped and
    sorted), the runnable targets read from `cargo metadata`
  - `crates_io.rs` — search hits, detail pages, request addresses, download scales
  - `runner.rs` — process events and removal of terminal control sequences
  - `ui.rs` — what is drawn: list rows, word wrapping, line styles, scroll
    offsets, the installed list, the status bar, the detail panel
  - `text.rs` — character and string helpers, decimal rendering, joining
- `tests/` — tests of the library
- `app/` — the program: argument handling, file and process I/O, HTTP,
  the terminal loop and drawing
