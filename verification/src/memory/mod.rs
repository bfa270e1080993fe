//! What the bot remembers.
pub mod episodic;
pub mod events;
pub mod lore;
pub mod memory_laws;
pub mod retrieval;
pub mod semantic;
pub mod store;
pub mod window_laws;
pub mod working;
