# jeopardy

The room and lobby logic of a buzzer-game server, verified with Verus.

- `src/` is the library: the lobby (`lobby.rs`) that decides who is told
  what when clients connect, leave and send messages; the per-client
  websocket logic (`server.rs`); the reading of websocket join paths and the
  drawing of room codes and identifiers (`endpoints.rs`, `ids.rs`); the
  messages (`messages.rs`); and the properties that hold across calls
  (`laws.rs`).
- `app/` is the actix-web server around it: HTTP routes, the actors that
  carry out the lobby's decisions, JSON encoding of the messages.
- `tests/` runs the library on concrete games.

There is no database layer: rooms and sessions live in the lobby's memory
only. `app/` serves the HTML pages from `src-web/` at run time; the pages
themselves are not part of this repository.
