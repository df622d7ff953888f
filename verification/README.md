# gameserver_rs

A game-server panel and the node agent it drives, with the panel's logic
written in Verus and proved against its contracts.

## Layout

- `src/` — the verified library.
  - `databasespec.rs`, `store.rs`, `keyed.rs`: the records (users, nodes,
    servers, buttons, settings, integrations) and the JSON-backed store,
    modelled as sequences of views; `store_laws.rs` states what the store
    keeps across operations (a created user is found, removing undoes
    creating, toggling the buttons twice restores them, ...).
  - `credentials.rs`, `database.rs`: password hashing and sign-in over
    `bcrypt`.
  - `handlers.rs`, `integrations.rs`, `panel_laws.rs`: what each panel
    request does to the panel's state and what it answers.
  - `transport.rs`, `session.rs`, `scan.rs`: the messages sent to a node,
    when a request may use the stream, how the values read from a node are
    gathered and applied, and the decisions of connecting.
  - `gameserver.rs`, `providers.rs`, `properties.rs`: the node agent's
    decisions: commands, file transfer framing, providers and their commands,
    RCON properties.
  - `control.rs`, `frontend.rs`, `deploy.rs`, `orchestration.rs`:
    authorisation, status reporting, static files, image and deployment
    decisions.
  - `json.rs`, `text.rs`: the few calls into `serde_json` and `std` text
    functions, each with its contract.
- `tests/` — tests of the library on concrete values.
- `app/` — the program around the library: reading requests, files and
  sockets, and the serde forms of the library's types.
