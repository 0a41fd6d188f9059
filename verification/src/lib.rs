//! Network protocol engine for a game server: a bounds-checked wire codec
//! (VarInt/VarLong, big-endian fixed-width integers, length-prefixed UTF-8
//! strings, packed positions, UUIDs), a state-scoped packet model, and the
//! login handshake that re-keys a connection into encrypted mode.

pub mod chat;
pub mod chat_color;
pub mod clientbound;
pub mod connection;
pub mod crypto;
pub mod error;
pub mod mojang;
pub mod packet;
pub mod serverbound;
pub mod game;
pub mod server;
pub mod stream;
pub mod strutil;
pub mod buffer;
pub mod uuid;
pub mod vector;
pub mod wire;
pub mod world;
