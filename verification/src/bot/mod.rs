//! What the bot does with what it is sent.
pub mod answer_stream;
pub mod chunk_laws;
pub mod chunks;
pub mod commands;
pub mod handlers;
pub mod incoming;
pub mod limit_laws;
pub mod message_laws;
pub mod perceive;
pub mod reply;
pub mod reply_laws;
pub mod stream_laws;
