# goose-gateway

An HTTP endpoint in the chat completion format in front of goose's providers, with the logic as a
verified library.

- `src/` is the library, in Verus. It reads requests, decides what is asked of a provider and when,
  builds every answer, and lists, saves, removes and signs in to providers. Each function states in
  its contract what it returns; the laws that span several of them stand beside them as public proof
  functions. What it has from `serde_json`, `url` and the standard library stands behind a few
  trusted functions, each of which says what it takes for granted.
- `app/` is the server around it: sockets, files, environment, the MCP server's process and goose.
- `tests/` runs the library.

goose is not on crates.io, so `app/engine.rs`, the one file that names it, needs a checkout of it.

Completions, sign-in events, single providers, tool results and errors go out with the members of
JSON objects in the order in which their types declare them; everything else with members in
alphabetical order.
