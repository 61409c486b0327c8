# personal_jira_kanban

A personal Jira workflow layer: assigned Jira issues are pulled into a local
store, placed on a personal kanban board, and moves can queue a Jira
transition and comment that are sent later.

- `src/` is the library, verified with Verus: the text rules (trimming,
  ordering), the Jira settings and credentials, the paged issue search, the
  local store (issues, columns, placements, queued updates, settings) as
  tables in memory, what the board shows, what its controls do, the state
  machine that sends queued updates, and the error log line. Each public
  function states its result in `ensures`; the `law_*` proof functions state
  what holds across operations (what a read gives back after a write, the
  order the board lists things in, that bringing a store up to date twice
  changes nothing, that a run over the queue always ends).
- `tests/` runs the library on concrete values.
- `app/` is the desktop program: the Dioxus window, the SQLite file the
  tables are kept in, the Jira HTTP calls, the key ring and the log file.
