# glues

The decision logic of the Glues note-taking tools, verified with Verus.

- `src/access.rs`, `src/loader.rs`, `src/server.rs`: the proxy server's guard
  over an exposed subtree of the note store, the walks that collect that
  subtree and a removal's contents, and the bearer-token check.
- `src/tree.rs`, `src/workspace.rs`, `src/gui.rs`, `src/settings.rs`: the GUI's
  lazily loaded note tree, its tabs, its open screen, and its remembered
  workspaces.
- `src/tui.rs` and `src/tui/`: the terminal front end's key handling, dialogs
  and the screen updates for the store's answers.
- `src/mcp.rs`: the store requests behind the MCP tools.
- `src/text.rs`, `src/ids.rs`, `src/data.rs`: text helpers, id sets and the
  note store's records.

Operations that need the store (a listing, a note's content) return what they
need and are finished by a second call once the caller fetched it; `app/`
holds the HTTP server, the command line and the settings file around the
library.
