# workset

Workset saves groups of desktop applications as workspaces and launches
them together, moving every window to its saved monitor, position, size
and state.

- `src/` is the verified library (Verus): the data model and its
  validation, command-line argument splitting and joining, window matching
  and scoring, monitor choice and rectangle overlap, launch planning and
  the launch state machines (one app, one session), session and recovery
  decisions, settings, import gates, discovery de-duplication and sorting.
- `tests/` exercises the library on concrete values.
- `app/` is the desktop application around it: the Tauri commands and
  tray, SQLite storage, the operating-system calls (windows, monitors,
  processes, file system), JSON shapes, and the floating-point layout
  conversion.
