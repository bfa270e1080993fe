//! The language-model service.
pub mod client;
pub mod embeddings;
pub mod llm_laws;
pub mod perception;
pub mod prompt_builder;
pub mod prompts;
pub mod stream;
