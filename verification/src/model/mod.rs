//! Canonical model names.
pub mod gpt;
pub mod openrouter;
