# tuisana

The session logic of a terminal client for a task tracker, written in Verus
and verified: every public function states what it returns or changes, over
plain mathematical models of the state.

- `src/` the verified library: calendar dates and the date-query grammar,
  the date picker, completion over closed sets, the project list, the top
  pane, the Gantt view, the task cell editor and which editor a cell opens
  with (`cell_open`), task records, the grouping of custom fields by name and what the
  filters read of a record (`records`), the dataset built from what was
  fetched for the projects (`dataset`), the task table's cursor, chosen tasks and clipboard
  checklist (`table`, `task_table`), the filter rules and the filter panel
  with its saved entries, and the session (`app`) that routes
  keys and actions between them and hands back what is left to do outside
  (writing the config, fetching task data, the task table's own actions).
- `tests/` scenarios run against the compiled library.
- `app/` the terminal side: key events turned into the key presses the
  session reads.
