//! Decision, memory and prompt logic of a Telegram group-chat bot.
//!
//! The library holds what the bot decides and computes: when it answers, what it
//! remembers, which commands it sends to its stores and which prompts it builds.
//! Network, disk and clock stay outside; they hand plain values in and take plain
//! values back.
pub mod bot;
pub mod config;
pub mod decision;
pub mod encoding;
pub mod error;
pub mod float_bits;
pub mod health;
pub mod llm;
pub mod memory;
pub mod storage;
pub mod tasks;
pub mod text;
pub mod text_laws;
