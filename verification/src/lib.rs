//! A horizontally scalable realtime room server core.
//!
//! Clients open a persistent binary connection, authenticate with a hello
//! handshake, join a named room, and exchange broadcasts with the other
//! members of that room.  Rooms may span several server instances; a
//! publish/subscribe bus fans broadcasts out across the fleet and a key/value
//! state store keeps per-room shared state coherent.
//!
//! This crate holds the verified core: the wire codec, the pub/sub envelope,
//! the dispatcher registry, and the protocol state machines that drive a
//! connection, a room, and a server.  The asynchronous shell (carrier
//! transport, broker and store clients, task loops) lives outside and calls
//! into these functions.

pub mod config;
pub mod connections;
pub mod dispatcher;
pub mod packets;
pub mod pubsub;
pub mod rooms;
pub mod server;
pub mod types;

pub use types::ConnectionID;
pub use types::Identifier;
pub use types::RoomID;
pub use types::ServerID;
