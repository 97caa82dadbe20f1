# tui_pages

A coordination library for keyboard-driven, page-based terminal
applications, written in Verus. The library's behaviour is stated in
`requires`/`ensures` contracts and proved.

## Layout

- `src/input/`: keys and chords, parsing bindings, keymaps and the input
  registry, the input pipeline (multi-key sequences with a timeout), and
  the binding catalog with its conflict analysis.
- `src/keybindings/`: navigation actions, built-in Vim/Emacs/Helix presets,
  TOML presets and configurations, the layered binding store, and export of
  the user and runtime layers back to TOML.
- `src/focus/`: the focus manager over a page's targets, overlays, modals
  and sections.
- `src/navigation/`: buffers, panes and the navigation coordinator.
- `src/command/`: command aliases and their resolution.
- `src/dialog/`, `src/picker/`: dialog state and keys, dialog layout; picker
  queries, fields and input.
- `src/runtime/`: page specs, effects and outcomes, and the runtime that
  routes keys through the input layers, dispatches actions to the
  application's handler and applies the effects it returns.
- `app/`: terminal-side glue: crossterm key conversion, the terminal guard
  and the ratatui dialog renderer.
- `tests/`: tests of the library.
