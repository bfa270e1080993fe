//! The prompts.
pub mod facts;
pub mod persona;
pub mod score;
pub mod summary;
pub mod system;
pub mod vision;
