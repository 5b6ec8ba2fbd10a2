//! Core state machines of a small websocket game/chat server: the online
//! server's room and session bookkeeping, the game room's frame buffer, the
//! per-connection session logic and the JSON parcels they exchange.
pub mod json;
pub mod my_websocket;
pub mod online_server;
pub mod proto;
pub mod random;
pub mod room;
