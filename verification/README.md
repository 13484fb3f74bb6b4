# coquerythmo_ui

Interaction logic of the Coquerythmo desktop interface, written in Verus and
proved against its specifications.

- `src/` — the verified library: keyboard focus scopes, the file tree
  (rows, keyboard and pointer handling, context menus, renaming, drag and
  drop), the media explorer, export, connection and invitation dialogs,
  dropdowns and the font picker, the comic dubs workspace (vertex
  timeline, word wrapping, control identifiers, text editing, and its event
  step: drawing, selecting, moving and deleting bubbles, the inspector and
  the media sidebar), the node editor of line automations and the icon
  atlas layout. Each public function states what it returns or changes;
  the `lemma_*` proof functions state properties that hold across calls.
- `tests/` — executable tests of the library.
- `app/` — the window-side layer: pixel geometry and hit tests, polygon
  points and canvas positions, animation springs, the operating system's
  reduced-motion setting, whether media files are on disk, SVG/PNG
  rasterising and GPU texture upload.
