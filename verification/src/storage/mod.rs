//! The stores that the bot keeps its state in.
pub mod laws;
pub mod qdrant;
pub mod redis;
pub mod server;
pub mod sqlite;
pub mod wire_laws;
