# korlap

The verified core of Korlap, a local desktop workspace that joins a Kanban
board of tasks to an AI assistant working in one git worktree per task.

- `src/` is the library, verified with Verus: the lifecycle of a task
  (forward-only moves, the worktree and merge steps as a state machine that
  the application drives), the conversation sent to the Messages API (token
  estimate and trimming, tools offered, `@file` context), the reading of the
  streamed reply (server-sent events to text, tool calls and content blocks),
  the approval of tool calls in batches, and the tool work itself (keeping
  paths in the worktree, editing, cutting outputs).
- `tests/` runs the library on concrete cases.
- `app/` is the Tauri application around it: commands, SQLite, git, HTTP,
  the OS keyring and terminals. It reads the model id to request from the
  `KORLAP_MODEL` environment variable.
