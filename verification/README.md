# chat_server

A websocket game/chat server built on actix. The decisions it makes are a
verified library (`src/`); the actors, sockets, timers and logging around it
are ordinary Rust (`app/`).

- `src/online_server.rs`: sessions, rooms and game rooms, and who receives
  each message.
- `src/room.rs`: a game room's frame buffer and game-loop state.
- `src/my_websocket.rs`: one connection's heartbeat rule and what it does with
  each websocket frame and JSON text.
- `src/proto.rs`, `src/json.rs`: the JSON parcels sent to clients.
- `app/`: the actix actors that carry out the library's decisions, and `main`.
