# niri_settings

The settings editor for the niri compositor and niri-shell: it keeps a JSON
store of the user's choices, writes them as a KDL fragment that the main niri
config includes, reads hand edits of that fragment back, and validates each
save with `niri validate` before it replaces anything.

The library under `src/` holds the logic, verified with Verus:

- `types`, `rows` — the settings model, its enums, and the stable row ids
  that keep edits attached to their rows.
- `generate` — the KDL text written for a configuration, stated exactly.
- `kdl_doc`, `overlay`, `persist` — the parsed KDL document model (parsing
  itself is done by the `kdl` crate, which is only handed texts without a
  keyword type annotation, on which it panics, and with bounded nesting of
  children blocks, block comments and chained slashdashes, through which it
  recurses), what a load reads back from the managed
  fragment, how a save merges with hand-written nodes, and what a validation
  run means.
- `save` — the steps of a save as a state machine: a candidate the
  compositor refuses never replaces an active file.
- `keybinds`, `import` — key combination normalisation, conflict detection,
  bind line parsing, and the import of bindings from an existing niri config:
  a walk over the config and its includes, driven by the caller, that ends
  with the first `binds` block.
- `sanitise`, `text` — the character rules for embedded strings and the text
  primitives (trimming, decimal and fixed-point numbers).
- `shell` — the niri-shell preferences file.
- `outputs`, `pages`, `paths`, `errors`, `ipc` — decisions of the settings
  window, file locations and error messages.
- `reads_back` — proofs that bind lines and command-line argument fields
  read back unchanged after the editor writes them.

`app/` is the GTK program around it: file and socket I/O, the JSON store,
`niri validate`, and the widgets. `tests/` exercises the library on concrete
values.
