//! The background tasks.
pub mod chat_dna;
pub mod dedup_events;
pub mod dedup_laws;
pub mod extract_facts;
pub mod facts_laws;
pub mod score_events;
pub mod score_laws;
pub mod shots_seeder;
pub mod summarize;
pub mod summary_laws;
