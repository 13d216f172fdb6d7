# dreamusd

The verified core of DreamUSD, a viewer and editor for USD scenes that renders through Hydra
behind a small C bridge.

- `src/` is the library, verified with Verus: the prim hierarchy and its searches
  (`scene`, `paths`), the hierarchy and properties panels (`hierarchy`, `properties`), stage
  edits and their undo blocks (`edits`, `commands`), the viewer's gizmo, shortcut and frame
  decisions (`viewer`), the renderer's vocabulary (`hydra`), bridge errors (`error`), and the
  text, number and lookup helpers they rest on (`text`, `numbers`, `fmt`, `keyed`,
  `unicode`). `laws` states the properties that span several operations.
- `app/` is the program around it: the declarations of the C bridge, safe handles over it,
  reading a stage into the library's `Stage`, carrying out the library's `StageEdit`s, and a
  command that renders one frame of a scene to a PNG file.
- `tests/` runs the library on concrete scenes and texts.
