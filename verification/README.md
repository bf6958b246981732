# gttui library

The verified core of `gttui`, a terminal UI and command-line client for the
GPS Trust MCP servers.

- `src/` — the library, written in Verus. Every function carries a
  contract that Verus proves:
  - `mcp/` — the server registry (`KEY=URL` registration, the known-server
    catalog), tool-call arguments and the managed `account_id` field,
    connection bookkeeping (fail-closed: only servers with a usable
    credential get a client), identity parsing, notification coalescing.
  - `auth/` — credentials per server with audience binding, the API-key
    session, the OAuth 2.1 + PKCE steps (URLs, callback parsing, token
    bookkeeping, and the per-server login decisions: refresh first, fall
    back to the browser, skip a declined server), the token store's
    contents.
  - `app.rs`, `event.rs` — the application state machine: what every key
    and server event does to the state.
  - `ui/` — the parameter form, the texts of each pane, the friendly
    rendering of JSON results and the lines of the raw result tab.
  - `call.rs` — the `call` command: `key=value` parameters, tool lookup,
    JSON output.
  - `text.rs`, `encoding.rs`, `json.rs` — string helpers, and the calls into
    `form_urlencoded`, `base64`, `sha2`, `rand` and `serde_json` with their
    stated contracts.
- `app/` — the program around the library: command line, terminal, drawing,
  HTTP, the MCP client connections and the token file.
- `tests/` — tests of the library.
