//! The plan mode of an agent, and the provider that it talks to.
pub mod anthropic;
pub mod chat;
pub mod json;
pub mod plan;
pub mod text;
