//! Core logic of the Firefly chat client: routing, title cleanup, memory
//! prompts, sync URLs and credential handling.

pub mod commands;
pub mod error;
pub mod llm;
pub mod memory;
pub mod naming;
pub mod router;
pub mod secrets;
pub mod store;
pub mod sync;
pub mod text;
