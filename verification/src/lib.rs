//! Core engines of a personal activity-recall assistant: an encrypted
//! content store, an in-memory semantic index with similarity search, the
//! capture-cycle orchestration around them, and the supporting command,
//! emotion, macro and profile logic.

pub mod audio;
pub mod cipher;
pub mod commands;
pub mod emotion;
pub mod engine;
pub mod executor;
pub mod index;
pub mod keys;
pub mod npu;
pub mod parser;
pub mod profile;
pub mod store;
pub mod text;
pub mod voice_macros;
