# way-pad

Scratchpad windows for Wayland: a *pad* names a group of windows by patterns for their application
id and title, and `way-pad toggle <pad>` hides the group, shows it, or launches it.

Windows are hidden in one of two ways:

- on driftwm, an infinite canvas, by moving them to a far spot or by making them transparent;
- elsewhere by minimizing them through `zwlr_foreign_toplevel_management_v1`.

## Layout

- `src/` is the library. It decides everything: what a configuration means, which windows belong to
  a pad, what a command does next, how a window is hidden and shown again, how long to wait. Its
  contracts are checked by Verus.
- `app/` is the program: the command line, files, processes, the Wayland connection, and all
  arithmetic on canvas coordinates, which is floating point.
- `tests/` runs the library on concrete values.

The library takes coordinates as values of a type parameter that it keeps and hands on but never
computes with. Where a decision depends on a comparison of coordinates, the program makes the
comparison and the library takes its answer.

| Module | What is in it |
|--------|---------------|
| `config`, `pad`, `size`, `config_error` | the configuration and its faults |
| `ops`, `command` | toggling, showing, hiding, closing, listing; the choice of a backend |
| `driftwm` | the IPC of driftwm: its answers, its commands, hiding and showing, waiting |
| `toplevel` | the foreign-toplevel protocol |
| `positions` | what is remembered of hidden windows |
| `paths` | where the configuration, the cache and the locks are |
| `text` | text helpers |
| `outside` | the calls to other crates, whose contracts are believed without proof |
