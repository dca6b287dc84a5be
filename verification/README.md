# herdr (verified core)

Two pieces of a terminal multiplexer, with contracts proved by Verus:

- `src/terminal_modes.rs`: the byte sequences that turn off every host
  terminal mode the client can leave on (mouse tracking, focus reporting,
  bracketed paste, alternate screen, kitty keyboard, modifyOtherKeys, cursor
  keys and keypad, cursor visibility and shape, character attributes).
- `src/workspace.rs`, `src/app.rs`, `src/workspaces.rs`: the workspace API
  requests (list, get, create, focus, rename, close) over a model of the
  application state, including the grouping of git worktree checkouts of one
  repository.

`app/` writes the reset sequences to the host terminal.

The handlers were written against parts of the application that are not part
of this project's sources: starting a workspace's terminal, normalizing its
environment, reading git facts from disk, encoding responses, and the
application's own helpers for looking up, describing, focusing and closing
workspaces and for assigning group memberships. Neither the library nor `app/`
implements the first four: the handlers take their results as values
(`launched`, `fallback_cwd`, the git fields of `Workspace`) and return
`Response` values. The helpers (`parse_workspace_id`, `workspace_info`,
`close_selected_workspace`, `set_worktree_membership`,
`emit_workspace_open_events` and the other small methods of `App`) are a model
of the application state written for this library; their contracts state that
model, for example where the focus goes after a close. The created-workspace
response carries the new workspace's description only.
